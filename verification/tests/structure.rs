use platemaker::fs::Directory;
use platemaker::fs::FSNode;
use platemaker::fs::File;
use platemaker::fs::FileSystemError;
use platemaker::fs::PathProbe;
use platemaker::path::path_components;
use platemaker::path::path_file_name;
use platemaker::path::path_strip_prefix;
use platemaker::structure::parse_number;
use platemaker::structure::sorted_groups;
use platemaker::structure::template::is_template_file;
use platemaker::structure::template::template_file_paths;
use platemaker::structure::ArticleFile;
use platemaker::structure::ArticleGroup;
use platemaker::structure::ArticleGroupNode;
use platemaker::structure::ArticleIdentity;
use platemaker::structure::AssetFile;
use platemaker::structure::AssetRootDir;
use platemaker::structure::ContentDirectory;

fn strings(items: &[&str]) -> Vec<String> {
    items.iter().map(|item| item.to_string()).collect()
}

fn group(year: u32, month: u32) -> ArticleGroup {
    ArticleGroup { year, month }
}

#[test]
fn path_classification() {
    let root = Directory::new_unchecked("/content");

    let article = ArticleFile::from_file(&File::new_unchecked("/content/2024/03/foo.md"), &root)
        .expect("an article");
    assert_eq!(article.0.group, group(2024, 3));
    assert_eq!(article.0.relative_path, "2024/03/foo.md");
    assert_eq!(article.0.suffix_components, strings(&["foo.md"]));
    assert_eq!(article.id().slug, "foo");
    assert_eq!(article.id().group, group(2024, 3));
    assert_eq!(article.file().path(), "/content/2024/03/foo.md");
    assert!(article.is_wf());
    assert!(AssetFile::from_file(&File::new_unchecked("/content/2024/03/foo.md"), &root).is_none());

    let asset = AssetFile::from_file(&File::new_unchecked("/content/2024/03/assets/img.png"), &root)
        .expect("an asset");
    assert_eq!(asset.group(), group(2024, 3));
    assert_eq!(asset.file().path(), "/content/2024/03/assets/img.png");
    assert!(
        ArticleFile::from_file(&File::new_unchecked("/content/2024/03/assets/img.png"), &root)
            .is_none()
    );

    let neither = File::new_unchecked("/content/2024/03/sub/extra/file.md");
    assert!(ArticleFile::from_file(&neither, &root).is_none());
    assert!(AssetFile::from_file(&neither, &root).is_none());
}

#[test]
fn what_is_no_article() {
    let root = Directory::new_unchecked("/content");
    let no = |path: &str| ArticleFile::from_file(&File::new_unchecked(path), &root).is_none();

    assert!(no("/content/2024/03/foo.txt"));
    assert!(no("/content/2024/03/.md"));
    assert!(no("/content/2024/foo.md"));
    assert!(no("/content/2024/march/foo.md"));
    assert!(no("/content/foo.md"));
    assert!(no("/elsewhere/2024/03/foo.md"));
    assert!(no("/content2/2024/03/foo.md"));
    assert!(no("/content/2024/03/assets"));
    assert!(!no("/content/2024/03/a.b.md"));
    assert!(!no("/content/0/0/x.md"));
}

#[test]
fn assets_lie_inside_the_assets_directory() {
    let root = Directory::new_unchecked("/content");
    let asset = |path: &str| AssetFile::from_file(&File::new_unchecked(path), &root).is_some();

    assert!(asset("/content/2024/03/assets/deep/er/img.png"));
    assert!(!asset("/content/2024/03/assets"));
    assert!(!asset("/content/2024/03/asset/img.png"));
    assert!(!asset("/content/2024/assets/img.png"));

    let dir = AssetRootDir::from_dir(&Directory::new_unchecked("/content/2024/03/assets"), &root)
        .expect("the directory of assets");
    assert_eq!(dir.directory().path(), "/content/2024/03/assets");
    assert!(
        AssetRootDir::from_dir(&Directory::new_unchecked("/content/2024/03/assets/x"), &root)
            .is_none()
    );
    assert!(
        AssetRootDir::from_dir(&Directory::new_unchecked("/content/2024/03/other"), &root).is_none()
    );
}

#[test]
fn group_node_keeps_what_it_was_made_of() {
    let root = Directory::new_unchecked("/content/");
    let node = ArticleGroupNode::from_node(
        FSNode::Directory(Directory::new_unchecked("/content/1999/12/a/b")),
        &root,
    )
    .expect("a node in a group");

    assert_eq!(node.group, group(1999, 12));
    assert_eq!(node.relative_path, "1999/12/a/b");
    assert_eq!(node.suffix_components, strings(&["a", "b"]));
    assert_eq!(node.node.path(), "/content/1999/12/a/b");
    assert!(ArticleGroupNode::from_node(FSNode::Unknown("/content/x/12".to_string()), &root).is_none());
}

#[test]
fn identity_takes_the_day_from_the_file_name() {
    let g = group(2024, 3);
    let id = |name: &str| {
        let id = ArticleIdentity::from_file_name(g, name);
        (id.date, id.slug)
    };

    assert_eq!(id("foo.md"), ((2024, 3, 0), "foo".to_string()));
    assert_eq!(id("05_hello-world.md"), ((2024, 3, 5), "hello-world".to_string()));
    assert_eq!(id("17-2_second.md"), ((2024, 3, 17), "second".to_string()));
    assert_eq!(id("my_post.md"), ((2024, 3, 0), "my_post".to_string()));
    assert_eq!(id("1-x_post.md"), ((2024, 3, 0), "1-x_post".to_string()));
    assert_eq!(id("3_a_b.md"), ((2024, 3, 3), "a_b".to_string()));
    assert_eq!(id("_x.md"), ((2024, 3, 0), "_x".to_string()));
    assert_eq!(id("99999999999_x.md"), ((2024, 3, 0), "99999999999_x".to_string()));
}

#[test]
fn numbers_are_digits_that_fit() {
    assert_eq!(parse_number("2024"), Some(2024));
    assert_eq!(parse_number("03"), Some(3));
    assert_eq!(parse_number("+7"), Some(7));
    assert_eq!(parse_number("0"), Some(0));
    assert_eq!(parse_number("4294967295"), Some(4294967295));
    assert_eq!(parse_number("4294967296"), None);
    assert_eq!(parse_number(""), None);
    assert_eq!(parse_number("+"), None);
    assert_eq!(parse_number("-1"), None);
    assert_eq!(parse_number("12a"), None);
    assert_eq!(parse_number(" 12"), None);
}

#[test]
fn group_directories() {
    assert_eq!(group(2024, 3).group_dir_path(), "2024/3");
    assert_eq!(group(2024, 3).group_dir_flat_path(), "202403");
    assert_eq!(group(2024, 12).group_dir_flat_path(), "202412");
    assert_eq!(group(987, 1).group_dir_flat_path(), "098701");
    assert_eq!(group(12345, 123).group_dir_flat_path(), "12345123");
    assert_eq!(group(0, 0).group_dir_path(), "0/0");
}

#[test]
fn from_path_splits_group_and_suffix() {
    assert_eq!(ArticleGroup::from_path("2024/03"), Some((group(2024, 3), vec![])));
    assert_eq!(
        ArticleGroup::from_path("2024/03/assets/a.png"),
        Some((group(2024, 3), strings(&["assets", "a.png"])))
    );
    assert_eq!(ArticleGroup::from_path("2024"), None);
    assert_eq!(ArticleGroup::from_path("x/2024/03"), None);
    assert_eq!(ArticleGroup::from_path(""), None);
}

#[test]
fn scan_finds_the_group_directories() {
    let directories =
        strings(&["2024", "2024/03", "2024/03/assets", "2023", "2023/11", "drafts", "drafts/1", "2024/x"]);

    assert_eq!(ArticleGroup::scan(&directories), vec![group(2024, 3), group(2023, 11)]);
}

#[test]
fn groups_are_sorted_and_unique() {
    let groups = vec![group(2024, 3), group(2023, 11), group(2024, 1), group(2024, 3), group(2023, 11)];

    assert_eq!(sorted_groups(&groups), vec![group(2023, 11), group(2024, 1), group(2024, 3)]);
    assert_eq!(sorted_groups(&Vec::new()), Vec::new());
}

#[test]
fn content_directory_lists_articles_group_by_group() {
    let root = Directory::new_unchecked("/c");
    let directories = strings(&["2024", "2024/3", "2024/3/assets", "2023", "2023/11", "2024/3"]);
    let files: Vec<File> = [
        "/c/2024/3/b.md",
        "/c/2023/11/z.md",
        "/c/2024/3/assets/i.png",
        "/c/2024/3/a.md",
        "/c/readme.md",
        "/c/2023/11/notes.txt",
    ]
    .iter()
    .map(|path| File::new_unchecked(path))
    .collect();

    let content = ContentDirectory::new(&root, &directories, &files);

    assert_eq!(content.dir.path(), "/c");
    assert_eq!(content.article_group, vec![group(2023, 11), group(2024, 3)]);
    let found: Vec<&str> = content.markdown_files.iter().map(|file| file.file().path()).collect();
    assert_eq!(found, vec!["/c/2023/11/z.md", "/c/2024/3/b.md", "/c/2024/3/a.md"]);
}

#[test]
fn paths_split_into_components() {
    assert_eq!(path_components("a/b/c"), strings(&["a", "b", "c"]));
    assert_eq!(path_components("/a//b/"), strings(&["a", "b"]));
    assert_eq!(path_components(""), Vec::<String>::new());
    assert_eq!(path_file_name("/a/b.txt"), Some("b.txt".to_string()));
    assert_eq!(path_file_name("/"), None);
    assert_eq!(path_strip_prefix("/a/b/c", "/a"), Some("b/c".to_string()));
    assert_eq!(path_strip_prefix("/a/b/c", "/a/"), Some("b/c".to_string()));
    assert_eq!(path_strip_prefix("/a", "/a"), Some("".to_string()));
    assert_eq!(path_strip_prefix("/ab/c", "/a"), None);
    assert_eq!(path_strip_prefix("/x/c", "/a"), None);
    assert_eq!(path_strip_prefix("a/b", ""), Some("a/b".to_string()));
}

#[test]
fn template_files_are_known_by_name() {
    assert_eq!(template_file_paths(), strings(&["_article.html", "_index.html", "_index-list.html"]));
    assert!(is_template_file("/tpl/_article.html"));
    assert!(is_template_file("_index.html"));
    assert!(is_template_file("/tpl/sub/_index-list.html"));
    assert!(!is_template_file("/tpl/index.html"));
    assert!(!is_template_file("/tpl/_article.html/x.css"));
    assert!(!is_template_file(""));
}

#[test]
fn nodes_know_what_they_are() {
    let file = FSNode::from(File::new_unchecked("/a/f"));
    let dir = FSNode::from(Directory::new_unchecked("/a/d"));
    let unknown = FSNode::Unknown("/a/u".to_string());

    assert_eq!(file.path(), "/a/f");
    assert_eq!(dir.path(), "/a/d");
    assert_eq!(unknown.path(), "/a/u");
    assert!(file.file().is_some() && file.directory().is_none());
    assert!(dir.directory().is_some() && dir.file().is_none());
    assert!(unknown.file().is_none() && unknown.directory().is_none());
    assert_eq!(file.into_file().map(|f| f.path().to_string()), Some("/a/f".to_string()));
    assert_eq!(dir.into_directory().map(|d| d.path().to_string()), Some("/a/d".to_string()));
    assert!(unknown.into_file().is_none());
    assert!(FSNode::Unknown("/a/u".to_string()).into_directory().is_none());
}

fn probe(exists: bool, canonical: Result<&str, &str>, is_file: bool, is_dir: bool) -> PathProbe {
    PathProbe {
        exists,
        canonical: canonical.map(str::to_string).map_err(str::to_string),
        is_file,
        is_dir,
    }
}

#[test]
fn a_probe_tells_files_from_directories() {
    let file = probe(true, Ok("/real/a.md"), true, false);
    let dir = probe(true, Ok("/real/d"), false, true);
    let nothing = probe(false, Err("No such file or directory"), false, false);
    let broken = probe(true, Err("Too many levels of symbolic links"), false, false);
    let socket = probe(true, Ok("/real/s"), false, false);

    assert_eq!(File::new(&file).unwrap().path(), "/real/a.md");
    assert!(matches!(File::new(&dir), Err(FileSystemError::IsADirectory)));
    assert!(matches!(File::new(&nothing), Err(FileSystemError::NotFound)));
    assert!(matches!(File::new(&broken), Err(FileSystemError::Unresolved(m)) if m == "Too many levels of symbolic links"));

    assert_eq!(Directory::new(&dir).unwrap().path(), "/real/d");
    assert!(matches!(Directory::new(&file), Err(FileSystemError::NotADirectory)));
    assert!(matches!(Directory::new(&nothing), Err(FileSystemError::Unresolved(m)) if m == "No such file or directory"));

    let root = Directory::new_unchecked("/real");
    assert_eq!(root.child_path("d"), "/real/d");
    assert!(root.get_child(&nothing).is_none());
    assert!(matches!(root.get_child(&dir), Some(Ok(found)) if found.path() == "/real/d"));
    assert!(matches!(root.get_child(&file), Some(Err(FileSystemError::NotADirectory))));
    assert!(matches!(root.get_file(&file), Ok(found) if found.path() == "/real/a.md"));

    let both = root.get_files_vec(&vec![probe(true, Ok("/real/a.md"), true, false), probe(true, Ok("/real/b.md"), true, false)]).unwrap();
    assert_eq!(both.iter().map(|f| f.path()).collect::<Vec<_>>(), vec!["/real/a.md", "/real/b.md"]);
    assert!(matches!(
        root.get_files_vec(&vec![probe(true, Ok("/real/a.md"), true, false), probe(false, Err("gone"), false, false), probe(true, Ok("/real/d"), false, true)]),
        Err(FileSystemError::NotFound)
    ));

    let found = root.try_iter_content(&vec![
        ("/real/a.md".to_string(), file),
        ("/real/d".to_string(), dir),
        ("/real/s".to_string(), socket),
    ]);
    assert!(matches!(&found[0], Ok(FSNode::File(f)) if f.path() == "/real/a.md"));
    assert!(matches!(&found[1], Ok(FSNode::Directory(d)) if d.path() == "/real/d"));
    assert!(matches!(&found[2], Ok(FSNode::Unknown(p)) if p == "/real/s"));

    let a = File::new_unchecked("/real/a.md");
    assert!(a.containing_dir(None).is_none());
    assert!(matches!(a.containing_dir(Some(&probe(true, Ok("/real"), false, true))), Some(Ok(d)) if d.path() == "/real"));
}

#[test]
fn an_article_file_made_by_hand_is_tested_before_use() {
    let root = Directory::new_unchecked("/content");
    let directory = ArticleGroupNode::from_node(
        FSNode::Directory(Directory::new_unchecked("/content/2024/03/foo.md")),
        &root,
    )
    .expect("a node in a group");
    assert!(!ArticleFile(directory).is_wf());

    let text_file = ArticleGroupNode::from_node(
        FSNode::File(File::new_unchecked("/content/2024/03/foo.txt")),
        &root,
    )
    .expect("a node in a group");
    assert!(!ArticleFile(text_file).is_wf());

    let deep = ArticleGroupNode::from_node(
        FSNode::File(File::new_unchecked("/content/2024/03/a/foo.md")),
        &root,
    )
    .expect("a node in a group");
    assert!(!ArticleFile(deep).is_wf());
}
