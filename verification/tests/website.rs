use std::cell::Cell;

use platemaker::build_tasks::build_files;
use platemaker::build_tasks::copy_individual_assets_files;
use platemaker::build_tasks::plan_pages;
use platemaker::build_tasks::copy_asset_files;
use platemaker::build_tasks::copy_dir_recursively;
use platemaker::build_tasks::copy_individual_file;
use platemaker::build_tasks::copy_individual_template_files;
use platemaker::build_tasks::copy_template_files;
use platemaker::build_tasks::parse_articles;
use platemaker::build_tasks::ArticleSource;
use platemaker::build_tasks::TaskError;
use platemaker::cli::BuildArgs;
use platemaker::cli::Commands;
use platemaker::cli::WatchArgs;
use platemaker::cmd::watch::handle_notify_event;
use platemaker::cmd::watch::watch_for_change;
use platemaker::cmd::watch::ChangeKind;
use platemaker::cmd::watch::FileEvent;
use platemaker::cmd::watch::WatchAction;
use platemaker::cmd::watch::WatchInput;
use platemaker::config::Configuration;
use platemaker::fs::Directory;
use platemaker::fs::File;
use platemaker::markdown::parse::ParseError;
use platemaker::markdown::MarkdownProcessError;
use platemaker::model::Article;
use platemaker::model::ArticleMetadata;
use platemaker::model::GenerationContext;
use platemaker::structure::ArticleFile;
use platemaker::structure::ArticleGroup;
use platemaker::structure::ArticleIdentity;
use platemaker::structure::AssetFile;
use platemaker::structure::AssetRootDir;
use platemaker::website::articles::generate_article_html;
use platemaker::website::articles::generate_index_html;
use platemaker::website::fill_page;
use platemaker::website::find_entry;
use platemaker::website::get_webpage_construction;
use platemaker::website::WebPageHtmlTemplates;
use platemaker::website::WebsiteGenerationError;
use platemaker::template::Placeholder;
use platemaker::widgets::AiUsage;
use platemaker::widgets::ArticleType;
use platemaker::widgets::Sources;
use platemaker::widgets::Widget;
use platemaker::widgets::Widgets;

fn strings(items: &[&str]) -> Vec<String> {
    items.iter().map(|item| item.to_string()).collect()
}

fn article(year: u32, month: u32, day: u32, slug: &str, title: &str) -> Article {
    Article {
        id: ArticleIdentity {
            group: ArticleGroup { year, month },
            date: (year, month, day),
            slug: slug.to_string(),
        },
        metadata: ArticleMetadata {
            title: title.to_string(),
            brief: format!("about {slug}"),
            widgets: Widgets {
                ai: AiUsage::Unused,
                article_type: ArticleType::Research,
                sources: Sources::default(),
            },
        },
        content: format!("<p>{slug}</p>"),
    }
}

fn templates() -> WebPageHtmlTemplates {
    WebPageHtmlTemplates {
        article: "<h1>${title}</h1>[${ slug }|${type_class}]${if-debug}D${end-if-debug}${if-release}R${end-if-release}${content}${ai}".to_string(),
        index: "<style>${style}</style><ul>${articles}</ul>${if-debug}D${end-if-debug}".to_string(),
        index_style: "li{}".to_string(),
        index_list: "<li><a href=\"${url}\" class=\"${type_class}\">${title}</a> ${type_name} ${year}-${month}-${day} ${brief}${if-debug}d${end-if-debug}${if-release}r${end-if-release}</li>".to_string(),
    }
}

const DEBUG: GenerationContext = GenerationContext { release: false };
const RELEASE: GenerationContext = GenerationContext { release: true };

#[test]
fn an_article_page_fills_the_article_template() {
    let a = article(2024, 3, 7, "hello", "Hello");

    let page = generate_article_html(&templates(), &a, &DEBUG).expect("a page");
    assert_eq!(page.path, "202403/hello.html");
    assert_eq!(
        page.html,
        "<h1>Hello</h1>[hello|article-research]D<!-- (if-release: false) R (end-if-release: false) --><p>hello</p>"
    );
    assert_eq!(page.article.id.slug, "hello");

    let page = generate_article_html(&templates(), &a, &RELEASE).expect("a page");
    assert_eq!(
        page.html,
        "<h1>Hello</h1>[hello|article-research]<!-- (if-debug: false) D (end-if-debug: false) -->R<p>hello</p>"
    );
}

#[test]
fn widgets_fill_the_article_template() {
    let mut a = article(2024, 3, 7, "w", "W");
    a.metadata.widgets.ai = AiUsage::Review;
    let templates = WebPageHtmlTemplates {
        article: "${ai}|${type}|${sources}|${widget_styles}".to_string(),
        ..templates()
    };

    let page = generate_article_html(&templates, &a, &DEBUG).expect("a page");

    assert_eq!(
        page.html,
        format!(
            "{}|{}||{}",
            AiUsage::Review.build(),
            ArticleType::Research.build(),
            a.metadata.widgets.concatenate_styles()
        )
    );
}

#[test]
fn a_placeholder_without_a_value_fails_the_page() {
    let a = article(2024, 3, 7, "hello", "Hello");
    let templates = WebPageHtmlTemplates {
        article: "${title} ${unknown} ${content} ${other}".to_string(),
        ..templates()
    };

    match generate_article_html(&templates, &a, &DEBUG) {
        Err(WebsiteGenerationError::InvalidPlaceholder(names)) => {
            assert_eq!(names, strings(&["unknown", "other"]))
        }
        other => panic!("unexpected {other:?}"),
    }
}

#[test]
fn the_index_lists_the_newest_article_first() {
    let articles = vec![
        article(2023, 11, 30, "old", "Old"),
        article(2024, 3, 7, "new", "New"),
        article(2024, 3, 1, "mid", "Mid"),
        article(2024, 3, 7, "new-too", "New too"),
    ];
    let pages: Vec<_> = articles
        .iter()
        .map(|a| generate_article_html(&templates(), a, &DEBUG).expect("a page"))
        .collect();

    let index = generate_index_html(&templates(), &pages, &DEBUG).expect("the index");

    assert_eq!(index.path, "index.html");
    assert_eq!(
        index.html,
        "<style>li{}</style><ul>\
<li><a href=\"/articles/202403/new.html\" class=\"article-research\">New</a> 学習記録 2024-3-7 about new<!-- (debug) d (debug) -->r</li>\
<li><a href=\"/articles/202403/new-too.html\" class=\"article-research\">New too</a> 学習記録 2024-3-7 about new-too<!-- (debug) d (debug) -->r</li>\
<li><a href=\"/articles/202403/mid.html\" class=\"article-research\">Mid</a> 学習記録 2024-3-1 about mid<!-- (debug) d (debug) -->r</li>\
<li><a href=\"/articles/202311/old.html\" class=\"article-research\">Old</a> 学習記録 2023-11-30 about old<!-- (debug) d (debug) -->r</li>\
</ul>D"
    );

    let released = generate_index_html(&templates(), &pages[..1].iter().map(|p| {
        generate_article_html(&templates(), p.article, &RELEASE).expect("a page")
    }).collect(), &RELEASE).expect("the index");
    assert_eq!(
        released.html,
        "<style>li{}</style><ul>\
<li><a href=\"/articles/202311/old.html\" class=\"article-research\">Old</a> 学習記録 2023-11-30 about oldd<!-- (release) r (release) --></li>\
</ul><!-- (if-debug: false) D (end-if-debug: false) -->"
    );
}

#[test]
fn an_index_entry_without_a_value_fails_the_index() {
    let a = article(2024, 3, 7, "hello", "Hello");
    let page = generate_article_html(&templates(), &a, &DEBUG).expect("a page");
    let broken = WebPageHtmlTemplates { index_list: "${title} ${nope}".to_string(), ..templates() };

    match generate_index_html(&broken, &vec![page], &DEBUG) {
        Err(WebsiteGenerationError::InvalidPlaceholder(names)) => assert_eq!(names, strings(&["nope"])),
        other => panic!("unexpected {other:?}"),
    }
}

#[test]
fn tables_are_looked_up_from_the_back() {
    let table = vec![
        ("a".to_string(), "1".to_string()),
        ("b".to_string(), "2".to_string()),
        ("a".to_string(), "3".to_string()),
    ];

    assert_eq!(find_entry(&table, "a"), Some("3".to_string()));
    assert_eq!(find_entry(&table, "b"), Some("2".to_string()));
    assert_eq!(find_entry(&table, "c"), None);

    let placeholder = Placeholder::from_strs("${", "}", None).unwrap();
    assert_eq!(fill_page(&placeholder, "${a}${b}", &table), Ok("32".to_string()));
    assert_eq!(fill_page(&placeholder, "${a}${c}", &table), Err(strings(&["c"])));
}

#[test]
fn the_site_is_the_index_and_the_articles_below_it() {
    let articles = vec![article(2024, 3, 7, "hello", "Hello"), article(2023, 1, 2, "bye", "Bye")];
    let pages: Vec<_> = articles
        .iter()
        .map(|a| generate_article_html(&templates(), a, &DEBUG).expect("a page"))
        .collect();
    let index = generate_index_html(&templates(), &pages, &DEBUG).expect("the index");

    let tree = get_webpage_construction(Some(&index), &pages);
    assert_eq!(tree.dir, "");
    assert_eq!(tree.content.len(), 1);
    assert_eq!(tree.content[0].path, "index.html");
    assert_eq!(tree.content[0].content, index.html);
    assert_eq!(tree.sub_dir.len(), 1);
    assert_eq!(tree.sub_dir[0].dir, "articles");
    assert!(tree.sub_dir[0].sub_dir.is_empty());
    let paths: Vec<&str> = tree.sub_dir[0].content.iter().map(|f| f.path.as_str()).collect();
    assert_eq!(paths, vec!["202403/hello.html", "202301/bye.html"]);

    let without = get_webpage_construction(None, &pages);
    assert!(without.content.is_empty());
    assert_eq!(without.sub_dir[0].content.len(), 2);
}

#[test]
fn a_build_plans_every_page_under_the_destination() {
    let articles = vec![article(2024, 3, 7, "hello", "Hello"), article(2023, 1, 2, "bye", "Bye")];

    let plan = plan_pages(&templates(), &articles, true, &DEBUG, "/out").expect("a plan");

    assert_eq!(
        plan.dirs,
        strings(&["/out/", "/out/articles", "/out/articles/202403", "/out/articles/202301"])
    );
    let files: Vec<&str> = plan.files.iter().map(|(path, _)| path.as_str()).collect();
    assert_eq!(
        files,
        vec!["/out/index.html", "/out/articles/202403/hello.html", "/out/articles/202301/bye.html"]
    );
    assert!(plan.files[0].1.contains("/articles/202403/hello.html"));
    assert_eq!(
        plan.files[1].1,
        "<h1>Hello</h1>[hello|article-research]D<!-- (if-release: false) R (end-if-release: false) --><p>hello</p>"
    );

    let partial = plan_pages(&templates(), &articles[..1].to_vec_of_articles(), false, &DEBUG, "/out")
        .expect("a plan");
    let files: Vec<&str> = partial.files.iter().map(|(path, _)| path.as_str()).collect();
    assert_eq!(files, vec!["/out/articles/202403/hello.html"]);

    let broken = WebPageHtmlTemplates { article: "${missing}".to_string(), ..templates() };
    assert!(matches!(
        plan_pages(&broken, &articles, true, &DEBUG, "/out"),
        Err(WebsiteGenerationError::InvalidPlaceholder(names)) if names == strings(&["missing"])
    ));
}

trait ArticlesOf {
    fn to_vec_of_articles(&self) -> Vec<Article>;
}

impl ArticlesOf for [Article] {
    fn to_vec_of_articles(&self) -> Vec<Article> {
        self.iter()
            .map(|a| article(a.id.date.0, a.id.date.1, a.id.date.2, &a.id.slug, &a.metadata.title))
            .collect()
    }
}

fn source(path: &str, content: Result<&str, &str>) -> ArticleSource {
    ArticleSource {
        file: ArticleFile::from_file(&File::new_unchecked(path), &Directory::new_unchecked("/c"))
            .expect("an article file"),
        content: content.map(str::to_string).map_err(str::to_string),
    }
}

#[test]
fn a_source_that_fails_is_passed_over() {
    let sources = vec![
        source("/c/2024/3/01_one.md", Ok("+++\ntitle = \"One\"\n+++\n\n1\n")),
        source("/c/2024/3/02_two.md", Ok("no frontmatter\n")),
        source("/c/2024/3/03_three.md", Err("permission denied")),
        source("/c/2024/3/04_four.md", Ok("+++\nbad\n+++\n\n4\n")),
        source("/c/2024/3/05_five.md", Ok("+++\ntitle = \"Five\"\n+++\n\n5 :nope_five:\n")),
    ];
    let decode = |frontmatter: &str| -> Result<ArticleMetadata, String> {
        match frontmatter.trim().strip_prefix("title = ") {
            Some(title) => Ok(ArticleMetadata {
                title: title.trim_matches('"').to_string(),
                brief: String::new(),
                widgets: Widgets::default(),
            }),
            None => Err("no title".to_string()),
        }
    };

    let made = parse_articles(&sources, &decode);

    let titles: Vec<&str> = made.articles.iter().map(|a| a.metadata.title.as_str()).collect();
    assert_eq!(titles, vec!["One", "Five"]);
    assert_eq!(made.articles[1].id.date, (2024, 3, 5));
    assert_eq!(made.articles[1].content, "<p>5 <!-- Unresolved emoji --> :nope_five:</p>\n");
    assert_eq!(made.diagnostics.len(), 2);
    assert!(made.diagnostics[0].unresolved_emojis.is_empty());
    assert_eq!(made.diagnostics[1].unresolved_emojis, vec!["nope_five".to_string()]);
    assert_eq!(made.failures.len(), 3);
    assert!(matches!(
        &made.failures[0],
        (1, MarkdownProcessError::ParseError(ParseError::NoFrontmatter))
    ));
    assert!(matches!(&made.failures[1], (2, MarkdownProcessError::IOError(m)) if m == "permission denied"));
    assert!(matches!(
        &made.failures[2],
        (3, MarkdownProcessError::ParseError(ParseError::InvalidToml(m))) if m == "no title"
    ));
}

#[test]
fn copies_keep_their_place_below_the_destination() {
    let dir = Directory::new_unchecked("/tpl");
    let dest = Directory::new_unchecked("/out");

    assert_eq!(copy_individual_file(&dir, &dest, &File::new_unchecked("/tpl/css/a.css")), "/out/css/a.css");
    assert_eq!(copy_individual_file(&dir, &dest, &File::new_unchecked("/tpl/a.css")), "/out/a.css");
    assert_eq!(copy_individual_file(&dir, &dest, &File::new_unchecked("/other/a.css")), "/other/a.css");
    assert_eq!(copy_individual_file(&dir, &dest, &File::new_unchecked("rel/a.css")), "/out/rel/a.css");
}

#[test]
fn the_article_template_is_not_copied() {
    let dir = Directory::new_unchecked("/tpl");
    let files: Vec<File> = ["/tpl/_article.html", "/tpl/_index.html", "/tpl/css/_article.html", "/tpl/a.css"]
        .iter()
        .map(|path| File::new_unchecked(path))
        .collect();

    assert_eq!(copy_template_files(), strings(&["_article.html"]));
    let copied = copy_dir_recursively(&dir, &files, &copy_template_files());
    let paths: Vec<&str> = copied.iter().map(|file| file.path()).collect();
    assert_eq!(paths, vec!["/tpl/_index.html", "/tpl/css/_article.html", "/tpl/a.css"]);

    assert!(copy_individual_template_files(&dir, &files));
    assert!(!copy_individual_template_files(&dir, &files[1..].iter().map(|f| f.duplicate()).collect()));
    assert!(!copy_individual_template_files(&dir, &Vec::new()));
}

#[test]
fn assets_are_copied_from_the_directory_that_was_found() {
    let root = Directory::new_unchecked("/c");
    let directories: Vec<Directory> = [
        "/c/2024",
        "/c/2024/03",
        "/c/2024/03/assets",
        "/c/2024/03/assets/deep",
        "/c/2023/11/assets",
        "/c/2023/11/other",
        "/c/drafts/1/assets",
    ]
    .iter()
    .map(|path| Directory::new_unchecked(path))
    .collect();

    let assets = AssetRootDir::scan(&directories, &root);
    assert_eq!(assets.len(), 2);
    assert_eq!(assets[0].group(), ArticleGroup { year: 2024, month: 3 });
    assert_eq!(assets[0].directory().path(), "/c/2024/03/assets");

    let copies = copy_asset_files(&assets, &Directory::new_unchecked("/out"));
    assert_eq!(
        copies,
        vec![
            ("/c/2024/03/assets".to_string(), "/out/articles/202403/assets".to_string()),
            ("/c/2023/11/assets".to_string(), "/out/articles/202311/assets".to_string()),
        ]
    );
    assert!(copy_asset_files(&Vec::new(), &Directory::new_unchecked("/out")).is_empty());
}

#[test]
fn a_single_asset_keeps_its_place_below_the_assets_directory() {
    let root = Directory::new_unchecked("/c");
    let found: Vec<AssetFile> = ["/c/2024/03/assets/img.png", "/c/2024/03/assets/deep/er/a.svg", "/c/7/1/assets/x"]
        .iter()
        .map(|path| AssetFile::from_file(&File::new_unchecked(path), &root).expect("an asset"))
        .collect();

    assert_eq!(found[1].path_in_assets(), "deep/er/a.svg");
    assert_eq!(
        copy_individual_assets_files(&Directory::new_unchecked("/out"), &found),
        strings(&[
            "/out/articles/202403/assets/img.png",
            "/out/articles/202403/assets/deep/er/a.svg",
            "/out/articles/000701/assets/x",
        ])
    );
}

#[test]
fn a_build_without_sources_reads_nothing() {
    let loads = Cell::new(0);
    let load = || {
        loads.set(loads.get() + 1);
        Ok(templates())
    };
    let decode = |_: &str| -> Result<ArticleMetadata, String> { Err("unused".to_string()) };

    let built = build_files(&Vec::new(), true, &DEBUG, "/out", &load, &decode).expect("nothing to do");

    assert!(built.plan.is_none());
    assert!(built.diagnostics.is_empty() && built.failures.is_empty());
    assert_eq!(loads.get(), 0);
}

#[test]
fn a_build_reads_the_templates_makes_the_articles_and_plans_the_pages() {
    let sources = vec![
        source("/c/2024/03/01_one.md", Ok("+++\ntitle = \"One\"\n+++\n\n1 :nope_one:\n")),
        source("/c/2024/03/02_two.md", Ok("no frontmatter\n")),
    ];
    let decode = |frontmatter: &str| -> Result<ArticleMetadata, String> {
        Ok(ArticleMetadata {
            title: frontmatter.trim().trim_start_matches("title = ").trim_matches('"').to_string(),
            brief: String::new(),
            widgets: Widgets::default(),
        })
    };
    let loads = Cell::new(0);
    let load = || {
        loads.set(loads.get() + 1);
        Ok(templates())
    };

    let built = build_files(&sources, true, &DEBUG, "/out", &load, &decode).expect("a build");

    assert_eq!(loads.get(), 1);
    assert_eq!(built.diagnostics.len(), 1);
    assert_eq!(built.diagnostics[0].unresolved_emojis, strings(&["nope_one"]));
    assert!(matches!(
        &built.failures[..],
        [(1, MarkdownProcessError::ParseError(ParseError::NoFrontmatter))]
    ));
    let plan = built.plan.expect("a plan");
    let files: Vec<&str> = plan.files.iter().map(|(path, _)| path.as_str()).collect();
    assert_eq!(files, vec!["/out/index.html", "/out/articles/202403/one.html"]);
    assert!(plan.files[1].1.starts_with("<h1>One</h1>[one|article-activity]"));

    let unreadable = || Err("no such template".to_string());
    assert!(matches!(
        build_files(&sources, true, &DEBUG, "/out", &unreadable, &decode),
        Err(TaskError::WebsiteGeneration(WebsiteGenerationError::IOError(m))) if m == "no such template"
    ));

    let broken = || Ok(WebPageHtmlTemplates { article: "${missing}".to_string(), ..templates() });
    assert!(matches!(
        build_files(&sources, true, &DEBUG, "/out", &broken, &decode),
        Err(TaskError::WebsiteGeneration(WebsiteGenerationError::InvalidPlaceholder(names)))
            if names == strings(&["missing"])
    ));
}

fn event(kind: ChangeKind, paths: &[&str]) -> FileEvent {
    FileEvent { kind, paths: strings(paths) }
}

#[test]
fn only_created_and_modified_paths_count() {
    let events = vec![
        event(ChangeKind::Create, &["/c/a.md"]),
        event(ChangeKind::Other, &["/c/gone.md"]),
        event(ChangeKind::Modify, &["/c/b.md", "/c/a.md"]),
        event(ChangeKind::Modify, &[]),
    ];

    assert_eq!(handle_notify_event(&events), strings(&["/c/a.md", "/c/b.md", "/c/a.md"]));
    assert_eq!(handle_notify_event(&Vec::new()), Vec::<String>::new());
}

#[test]
fn the_watcher_decides_batch_by_batch() {
    let batch = || vec![event(ChangeKind::Modify, &["/x"])];

    assert!(matches!(
        watch_for_change(&WatchInput::Articles(batch())),
        WatchAction::BuildArticles(paths) if paths == strings(&["/x"])
    ));
    assert!(matches!(
        watch_for_change(&WatchInput::Templates(batch())),
        WatchAction::UpdateTemplates(paths) if paths == strings(&["/x"])
    ));
    assert!(matches!(watch_for_change(&WatchInput::Unreadable), WatchAction::KeepWatching));
    assert!(matches!(watch_for_change(&WatchInput::Interrupt), WatchAction::Stop));
}

#[test]
fn commands_name_their_configuration() {
    let build = Commands::Build(BuildArgs { config: "./platemaker.toml".to_string(), release: true });
    let watch = Commands::Watch(WatchArgs {
        config: "/etc/site.toml".to_string(),
        build_first: true,
        release: false,
    });

    assert_eq!(build.config(), "./platemaker.toml");
    assert!(build.release());
    assert!(build.generation_context().release);
    assert_eq!(watch.config(), "/etc/site.toml");
    assert!(!watch.release());
    assert!(!watch.generation_context().release);
    match &watch {
        Commands::Watch(args) => assert!(args.watch_param().build_first),
        Commands::Build(_) => unreachable!(),
    }

    let config = Configuration::new(
        Directory::new_unchecked("/t"),
        Directory::new_unchecked("/a"),
        Directory::new_unchecked("/d"),
    );
    assert_eq!(config.html_template_dir.path(), "/t");
    assert_eq!(config.article_md_dir.path(), "/a");
    assert_eq!(config.destination.path(), "/d");
}

#[test]
fn a_widget_tag_names_its_placeholder() {
    assert_eq!(Widget::tag(&AiUsage::Unused), "ai");
}

#[test]
fn changed_files_are_those_that_still_exist() {
    let probe = |exists: bool, canonical: Result<&str, &str>, is_file: bool| platemaker::fs::PathProbe {
        exists,
        canonical: canonical.map(str::to_string).map_err(str::to_string),
        is_file,
        is_dir: exists && !is_file,
    };
    let probes = vec![
        probe(true, Ok("/c/a.md"), true),
        probe(false, Err("gone"), false),
        probe(true, Ok("/c/dir"), false),
        probe(true, Ok("/c/b.md"), true),
    ];

    let changed = platemaker::cmd::watch::changed_files(&probes);

    let paths: Vec<&str> = changed.files.iter().map(|file| file.path()).collect();
    assert_eq!(paths, vec!["/c/a.md", "/c/b.md"]);
    assert_eq!(changed.failures.len(), 1);
    assert!(matches!(&changed.failures[0], (2, platemaker::fs::FileSystemError::IsADirectory)));
}
