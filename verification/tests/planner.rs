use platemaker::construct::excluded;
use platemaker::construct::ConstructFile;
use platemaker::construct::Construction;
use platemaker::construct::ConstructionPlan;
use platemaker::path::path_implied_parents;
use platemaker::path::path_is_absolute;
use platemaker::path::path_join;

fn file(path: &str, content: &str) -> ConstructFile {
    ConstructFile { path: path.to_string(), content: content.to_string() }
}

fn strings(items: &[&str]) -> Vec<String> {
    items.iter().map(|item| item.to_string()).collect()
}

#[test]
fn flattenable() {
    let construction = Construction {
        dir: "pages".to_string(),
        content: vec![file("1.html", "AAA"), file("2.html", "AAA"), file("3.html", "AAA")],
        sub_dir: vec![Construction {
            dir: "sub-1".to_string(),
            content: vec![file("1.html", "A"), file("2.html", "B"), file("3.html", "C")],
            sub_dir: vec![],
        }],
    };

    let plan = construction.plan("/root");

    assert_eq!(plan.dirs, strings(&["/root/pages", "/root/pages/sub-1"]));
    let files: Vec<(&str, &str)> =
        plan.files.iter().map(|(path, content)| (path.as_str(), content.as_str())).collect();
    assert_eq!(
        files,
        vec![
            ("/root/pages/1.html", "AAA"),
            ("/root/pages/2.html", "AAA"),
            ("/root/pages/3.html", "AAA"),
            ("/root/pages/sub-1/1.html", "A"),
            ("/root/pages/sub-1/2.html", "B"),
            ("/root/pages/sub-1/3.html", "C"),
        ]
    );
}

#[test]
fn nested_file_implies_its_parent_directories() {
    let tree = Construction {
        dir: "".to_string(),
        content: vec![],
        sub_dir: vec![Construction {
            dir: "articles".to_string(),
            content: vec![file("2024/03/foo.html", "<p>foo</p>")],
            sub_dir: vec![],
        }],
    };

    let plan = tree.plan("/out");

    assert_eq!(
        plan.dirs,
        strings(&["/out/", "/out/articles", "/out/articles/2024", "/out/articles/2024/03"])
    );
    assert_eq!(
        plan.files,
        vec![("/out/articles/2024/03/foo.html".to_string(), "<p>foo</p>".to_string())]
    );
}

#[test]
fn implied_directories_are_planned_once_per_node() {
    let tree = Construction {
        dir: "site".to_string(),
        content: vec![file("a/b/1.html", "1"), file("a/2.html", "2"), file("a/b/3.html", "3")],
        sub_dir: vec![],
    };

    let plan = tree._plan("/srv");

    assert_eq!(plan.dirs, strings(&["/srv/site", "/srv/site/a", "/srv/site/a/b"]));
}

#[test]
fn directories_are_sorted_by_length_and_keep_their_order_otherwise() {
    let tree = Construction {
        dir: "r".to_string(),
        content: vec![file("long-name/x.html", "x"), file("bb/y.html", "y"), file("aa/z.html", "z")],
        sub_dir: vec![],
    };

    let unsorted = tree._plan("/d");
    assert_eq!(unsorted.dirs, strings(&["/d/r", "/d/r/long-name", "/d/r/bb", "/d/r/aa"]));

    let plan = tree.plan("/d");
    assert_eq!(plan.dirs, strings(&["/d/r", "/d/r/bb", "/d/r/aa", "/d/r/long-name"]));
}

#[test]
fn planning_twice_gives_the_same_plan() {
    let tree = Construction {
        dir: "articles".to_string(),
        content: vec![file("202403/a.html", "a"), file("202402/b.html", "b")],
        sub_dir: vec![],
    };

    let first = tree.plan("/out");
    let second = tree.plan("/out");

    assert_eq!(first.dirs, second.dirs);
    assert_eq!(first.files, second.files);
}

#[test]
fn merge_appends_the_other_plan() {
    let mut plan = ConstructionPlan {
        dirs: strings(&["/a"]),
        files: vec![("/a/1".to_string(), "one".to_string())],
    };
    let other = ConstructionPlan {
        dirs: strings(&["/b", "/c"]),
        files: vec![("/b/2".to_string(), "two".to_string())],
    };

    plan.merge(other);

    assert_eq!(plan.dirs, strings(&["/a", "/b", "/c"]));
    assert_eq!(
        plan.files,
        vec![("/a/1".to_string(), "one".to_string()), ("/b/2".to_string(), "two".to_string())]
    );
}

#[test]
fn prefix_dirs_leaves_absolute_paths_alone() {
    let mut plan = ConstructionPlan {
        dirs: strings(&["pages", "/abs/pages"]),
        files: vec![
            ("pages/1.html".to_string(), "1".to_string()),
            ("/abs/2.html".to_string(), "2".to_string()),
        ],
    };

    plan.prefix_dirs("out");

    assert_eq!(plan.dirs, strings(&["out/pages", "/abs/pages"]));
    assert_eq!(
        plan.files,
        vec![
            ("out/pages/1.html".to_string(), "1".to_string()),
            ("/abs/2.html".to_string(), "2".to_string()),
        ]
    );
}

#[test]
fn join_puts_one_separator_between() {
    assert_eq!(path_join("/root", "pages"), "/root/pages");
    assert_eq!(path_join("/root/", "pages"), "/root/pages");
    assert_eq!(path_join("", "pages"), "pages");
    assert_eq!(path_join("/root", "/abs"), "/abs");
    assert_eq!(path_join("/root", ""), "/root/");
    assert!(path_is_absolute("/root"));
    assert!(!path_is_absolute("root"));
    assert!(!path_is_absolute(""));
}

#[test]
fn implied_parents_are_the_directory_prefixes() {
    assert_eq!(path_implied_parents("2024/03/foo.html"), strings(&["2024", "2024/03"]));
    assert_eq!(path_implied_parents("foo.html"), Vec::<String>::new());
    assert_eq!(path_implied_parents("/a/b"), strings(&["/a"]));
    assert_eq!(path_implied_parents("a//b/c"), strings(&["a", "a//b"]));
}

#[test]
fn excluded_compares_with_each_exclude_under_the_root() {
    let excludes = strings(&["_article.html", "/abs/skip.css"]);

    assert!(excluded("/tpl", "/tpl/_article.html", &excludes));
    assert!(excluded("/tpl", "/abs/skip.css", &excludes));
    assert!(!excluded("/tpl", "/tpl/index.css", &excludes));
    assert!(!excluded("/tpl", "/tpl/sub/_article.html", &excludes));
    assert!(!excluded("/tpl", "/tpl/_article.html", &Vec::new()));
}
