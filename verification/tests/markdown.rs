use platemaker::markdown::control::discard;
use platemaker::markdown::control::use_html;
use platemaker::markdown::control::use_next;
use platemaker::markdown::control::use_next_with;
use platemaker::markdown::control::use_this_instead;
use platemaker::markdown::control::BreakingEventProcess;
use platemaker::markdown::control::EventPredicate;
use platemaker::markdown::control::EventProcessControl;
use platemaker::markdown::control::Ignore;
use platemaker::markdown::control::Next;
use platemaker::markdown::event::Event;
use platemaker::markdown::event::EventKind;
use platemaker::markdown::full_service::parse_content;
use platemaker::markdown::full_service::process_events;
use platemaker::markdown::full_service::MarkdownParserIter;
use platemaker::markdown::is_markdown_path;
use platemaker::markdown::parse::make_article_from_markdown;
use platemaker::markdown::parse::parse_markdown;
use platemaker::markdown::parse::ParseError;
use platemaker::markdown::sub_parser::code_block::CodeBlockSubParser;
use platemaker::markdown::sub_parser::code_block::SyntaxHighlighter;
use platemaker::markdown::sub_parser::footnote::FootnoteSubParser;
use platemaker::markdown::sub_parser::frontmatter::FrontmatterSubParser;
use platemaker::markdown::sub_parser::text::emoji_to_html_tag;
use platemaker::markdown::sub_parser::text::EmojiReplacer;
use platemaker::markdown::sub_parser::text::TextParser;
use platemaker::markdown::sub_parser::SubParsers;
use platemaker::markdown::MarkdownProcessError;
use platemaker::model::ArticleMetadata;
use platemaker::structure::ArticleFile;
use platemaker::widgets::Widgets;

fn source(index: usize, kind: EventKind) -> Event {
    Event::Source { index, kind }
}

fn html(text: &str) -> Event {
    Event::Html(text.to_string())
}

fn text(index: usize, content: &str) -> Event {
    source(index, EventKind::Text(content.to_string()))
}

fn reference(index: usize, id: &str) -> Event {
    source(index, EventKind::FootnoteReference(id.to_string()))
}

fn definition(index: usize, id: &str) -> Event {
    source(index, EventKind::FootnoteDefinitionStart(id.to_string()))
}

fn smile() -> String {
    "<img\n                src=\"https://cdn.jsdelivr.net/gh/jdecked/twemoji@latest/assets/svg/1f604.svg\" \n                class=\"emoji\"\n                alt=\"😄\" \n                draggable=false\n            >".to_string()
}

fn count(haystack: &str, needle: &str) -> usize {
    haystack.matches(needle).count()
}

#[test]
fn frontmatter_is_the_text_between_the_delimiters() {
    let parsed = parse_content("+++\ntitle = \"Hello\"\n  spaced  =  true  \n\n# not a heading\n+++\n\nBody text.\n")
        .expect("a well-formed document");

    assert_eq!(
        parsed.frontmatter(),
        Some("title = \"Hello\"\n  spaced  =  true  \n\n# not a heading\n")
    );
    assert_eq!(parsed.html(), "<p>Body text.</p>\n");
}

#[test]
fn a_document_without_frontmatter_has_none() {
    let parsed = parse_content("Just a paragraph.\n").expect("a well-formed document");

    assert_eq!(parsed.frontmatter(), None);
    assert_eq!(parsed.html(), "<p>Just a paragraph.</p>\n");
    assert!(matches!(parse_markdown("Just a paragraph.\n"), Err(ParseError::NoFrontmatter)));
}

#[test]
fn no_footnotes_no_footnote_section() {
    let parsed = parse_content("+++\nt = 1\n+++\n\nPlain *text* only.\n").expect("a well-formed document");

    assert!(!parsed.html().contains("footnote-def"));
    assert!(!parsed.html().contains("<aside"));
    assert_eq!(parsed.html(), "<p>Plain <em>text</em> only.</p>\n");

    let unreferenced = process_events(&vec![reference(0, "x"), source(1, EventKind::Other)])
        .expect("an accepted stream");
    assert_eq!(
        unreferenced.events,
        vec![
            html("<a id=\"fnref_x_1\" class=\"fnref-anchor\"></a><sup><a href=\"#fn_x\">#1</a></sup>"),
            source(1, EventKind::Other),
        ]
    );
}

#[test]
fn footnotes_are_listed_in_the_order_of_their_first_reference() {
    let events = vec![
        reference(0, "b"),
        reference(1, "a"),
        reference(2, "b"),
        definition(3, "a"),
        source(4, EventKind::Other),
        source(5, EventKind::FootnoteDefinitionEnd),
        definition(6, "b"),
        source(7, EventKind::Other),
        source(8, EventKind::FootnoteDefinitionEnd),
    ];

    let processed = process_events(&events).expect("an accepted stream");

    assert_eq!(
        processed.events,
        vec![
            html("<a id=\"fnref_b_1\" class=\"fnref-anchor\"></a><sup><a href=\"#fn_b\">#1</a></sup>"),
            html("<a id=\"fnref_a_1\" class=\"fnref-anchor\"></a><sup><a href=\"#fn_a\">#2</a></sup>"),
            html("<a id=\"fnref_b_2\" class=\"fnref-anchor\"></a><sup><a href=\"#fn_b\">#1</a></sup>"),
            html("<aside class=\"footnote-def\"><h1>脚注</h1><ol>"),
            html("<li id=\"fn_b\">"),
            source(7, EventKind::Other),
            html("<sub><a href=\"#fnref_b_1\">戻る</a></sub>"),
            html("<sub><a href=\"#fnref_b_2\">戻る</a></sub>"),
            html("</li>"),
            html("<li id=\"fn_a\">"),
            source(4, EventKind::Other),
            html("<sub><a href=\"#fnref_a_1\">戻る</a></sub>"),
            html("</li>"),
            html("</ol></aside>"),
        ]
    );
}

#[test]
fn footnotes_without_reference_come_last_in_the_order_of_definition() {
    let events = vec![
        definition(0, "z"),
        source(1, EventKind::FootnoteDefinitionEnd),
        definition(2, "y"),
        source(3, EventKind::FootnoteDefinitionEnd),
        reference(4, "y"),
        definition(5, "x"),
    ];

    let processed = process_events(&events).expect("an accepted stream");

    assert_eq!(
        processed.events,
        vec![
            html("<a id=\"fnref_y_1\" class=\"fnref-anchor\"></a><sup><a href=\"#fn_y\">#1</a></sup>"),
            html("<aside class=\"footnote-def\"><h1>脚注</h1><ol>"),
            html("<li id=\"fn_y\">"),
            html("<sub><a href=\"#fnref_y_1\">戻る</a></sub>"),
            html("</li>"),
            html("<li id=\"fn_z\">"),
            html("</li>"),
            html("<li id=\"fn_x\">"),
            html("</li>"),
            html("</ol></aside>"),
        ]
    );
}

#[test]
fn footnotes_of_a_document_are_rendered_in_reference_order() {
    let parsed = parse_content(
        "+++\nt = 1\n+++\n\nOne[^b] two[^a] three[^b].\n\n[^a]: Alpha\n\n[^b]: Beta\n",
    )
    .expect("a well-formed document");
    let html = parsed.html();

    let b = html.find("<li id=\"fn_b\">").expect("the item of b");
    let a = html.find("<li id=\"fn_a\">").expect("the item of a");
    assert!(b < a);
    let item_b = &html[b..a];
    let item_a = &html[a..];
    assert_eq!(count(item_b, "戻る"), 2);
    assert!(item_b.contains("href=\"#fnref_b_1\"") && item_b.contains("href=\"#fnref_b_2\""));
    assert!(item_b.contains("Beta"));
    assert_eq!(count(item_a, "戻る"), 1);
    assert!(item_a.contains("href=\"#fnref_a_1\""));
    assert!(item_a.contains("Alpha"));
    assert_eq!(count(html, "<aside class=\"footnote-def\"><h1>脚注</h1><ol>"), 1);
    assert!(html.ends_with("</ol></aside>"));
    assert!(html.contains("<a id=\"fnref_b_2\" class=\"fnref-anchor\"></a><sup><a href=\"#fn_b\">#1</a></sup>"));
    assert!(html.contains("<a id=\"fnref_a_1\" class=\"fnref-anchor\"></a><sup><a href=\"#fn_a\">#2</a></sup>"));
}

#[test]
fn shortcodes_become_images_or_stay_as_they_are() {
    let parsed = parse_content("+++\nt = 1\n+++\n\nHi :smile: and :totally_unknown_xyz: and :totally_unknown_xyz: again :smile:\n")
        .expect("a well-formed document");

    assert_eq!(
        parsed.html(),
        format!(
            "<p>Hi {smile} and <!-- Unresolved emoji --> :totally_unknown_xyz: and <!-- Unresolved emoji --> :totally_unknown_xyz: again {smile}</p>\n",
            smile = smile()
        )
    );
    assert_eq!(parsed.unresolved_emojis, vec!["totally_unknown_xyz".to_string()]);
}

#[test]
fn the_replacer_reports_each_unresolved_shortcode_once() {
    let mut replacer = EmojiReplacer::new().expect("the pattern of a shortcode");

    assert_eq!(replacer.replace(":nope_a: :smile: :nope_b:"), format!(
        "<!-- Unresolved emoji --> :nope_a: {} <!-- Unresolved emoji --> :nope_b:",
        smile()
    ));
    assert_eq!(replacer.replace(":nope_b: : nope_a : text"), "<!-- Unresolved emoji --> :nope_b: <!-- Unresolved emoji --> :nope_a: text");
    assert_eq!(replacer.replace("no shortcode"), "no shortcode");
    assert_eq!(replacer.unresolved(), &vec!["nope_a".to_string(), "nope_b".to_string()]);
}

#[test]
fn an_emoji_of_several_code_points_names_them_all() {
    assert_eq!(emoji_to_html_tag("😄"), smile());
    assert!(emoji_to_html_tag("🇯🇵").contains("/svg/1f1ef-1f1f5.svg\""));
    assert!(emoji_to_html_tag("❤️").contains("/svg/2764-fe0f.svg\""));
}

#[test]
fn text_is_replaced_and_a_soft_break_behind_it_suppressed() {
    let events = vec![
        text(0, "first :smile:"),
        source(1, EventKind::SoftBreak),
        text(2, "second"),
        source(3, EventKind::Other),
        source(4, EventKind::SoftBreak),
    ];

    let processed = process_events(&events).expect("an accepted stream");

    assert_eq!(
        processed.events,
        vec![
            html(&format!("first {}", smile())),
            html("second"),
            source(3, EventKind::Other),
            source(4, EventKind::SoftBreak),
        ]
    );
}

#[test]
fn the_metadata_block_is_taken_out_of_the_stream() {
    let events = vec![
        source(0, EventKind::MetadataStart),
        text(1, "title = \"t\"\n  more = 1 \n"),
        source(2, EventKind::MetadataEnd),
        source(3, EventKind::Other),
        text(4, "text"),
    ];

    let processed = process_events(&events).expect("an accepted stream");

    assert_eq!(processed.frontmatter, Some("title = \"t\"\n  more = 1 \n".to_string()));
    assert_eq!(processed.events, vec![source(3, EventKind::Other), html("text")]);
}

#[test]
fn events_out_of_order_are_not_processed() {
    let in_metadata = vec![source(0, EventKind::MetadataStart), source(1, EventKind::SoftBreak)];
    assert!(process_events(&in_metadata).is_none());

    let second_block = vec![
        source(0, EventKind::MetadataStart),
        text(1, "a"),
        source(2, EventKind::MetadataEnd),
        source(3, EventKind::MetadataStart),
    ];
    assert!(process_events(&second_block).is_none());

    let in_code = vec![
        source(0, EventKind::FencedCodeStart("rust".to_string())),
        source(1, EventKind::Other),
    ];
    assert!(process_events(&in_code).is_none());

    let empty_block = vec![source(0, EventKind::MetadataStart), source(1, EventKind::MetadataEnd)];
    assert!(process_events(&empty_block).is_none());

    let two_texts = vec![source(0, EventKind::MetadataStart), text(1, "a"), text(2, "b")];
    assert!(process_events(&two_texts).is_none());
}

#[test]
fn code_blocks_are_highlighted() {
    let parsed = parse_content("+++\nt = 1\n+++\n\n```rs\nfn main() {}\n```\n").expect("a well-formed document");
    let html = parsed.html();

    assert!(html.starts_with("<code class=\"block\"><pre style=\"background-color:#fdf6e3;\">\n"), "{html}");
    assert!(html.ends_with("</pre>\n</code>"), "{html}");
    assert!(html.contains("main"));
    assert!(html.contains("<span style=\""));
    assert!(parsed.unknown_languages.is_empty());

    let lower = parse_content("+++\nt = 1\n+++\n\n```rust\nfn main() {}\n```\n").expect("a well-formed document");
    assert_eq!(lower.unknown_languages, vec!["rust".to_string()]);
    assert_ne!(lower.html(), html);
}

#[test]
fn a_language_is_found_by_name_then_by_extension() {
    let highlighter = SyntaxHighlighter {};

    assert_eq!(highlighter.find_language("Rust"), ("Rust".to_string(), false));
    assert_eq!(highlighter.find_language("rs"), ("Rust".to_string(), false));
    assert_eq!(highlighter.find_language(""), ("Plain Text".to_string(), false));
    assert_eq!(highlighter.find_language("no-such-language"), ("Plain Text".to_string(), true));

    let plain = highlighter.generate_highlighted_html("", "").expect("highlighted");
    assert_eq!(plain, "<code class=\"block\"><pre style=\"background-color:#fdf6e3;\">\n</pre>\n</code>");
    let by_extension = highlighter.generate_highlighted_html("rs", "let x = 1;\n").expect("highlighted");
    let by_name = highlighter.generate_highlighted_html("Rust", "let x = 1;\n").expect("highlighted");
    let unknown = highlighter.generate_highlighted_html("no-such-language", "let x = 1;\n").expect("highlighted");
    assert_eq!(by_extension, by_name);
    assert_ne!(by_name, unknown);
}

#[test]
fn an_unknown_language_is_reported_and_an_empty_block_kept() {
    let events = vec![
        source(0, EventKind::FencedCodeStart("no-such-language".to_string())),
        text(1, "x = 1\n"),
        source(2, EventKind::CodeBlockEnd),
        source(3, EventKind::FencedCodeStart("".to_string())),
        source(4, EventKind::CodeBlockEnd),
    ];

    let processed = process_events(&events).expect("an accepted stream");

    assert_eq!(processed.unknown_languages, vec!["no-such-language".to_string()]);
    assert_eq!(processed.events.len(), 2);
    assert_eq!(
        processed.events[1],
        html("<code class=\"block\"><pre style=\"background-color:#fdf6e3;\">\n</pre>\n</code>")
    );
    match &processed.events[0] {
        Event::Html(block) => assert!(block.contains("x = 1")),
        other => panic!("expected raw HTML, got {other:?}"),
    }
}

#[test]
fn ignore_counts_down() {
    let any = source(0, EventKind::Other);
    let soft = source(1, EventKind::SoftBreak);

    assert_eq!(Ignore::ForNext(0).next(&any), (false, None));
    assert_eq!(Ignore::ForNext(1).next(&any), (true, None));
    assert_eq!(Ignore::ForNext(3).next(&any), (true, Some(Ignore::ForNext(2))));
    assert_eq!(Ignore::ForNextIf(1, EventPredicate::SoftBreak).next(&soft), (true, None));
    assert_eq!(Ignore::ForNextIf(1, EventPredicate::SoftBreak).next(&any), (false, None));
    assert_eq!(
        Ignore::ForNextIf(2, EventPredicate::SoftBreak).next(&soft),
        (true, Some(Ignore::ForNextIf(1, EventPredicate::SoftBreak)))
    );
    assert_eq!(Ignore::ForNextIf(0, EventPredicate::SoftBreak).next(&soft), (false, None));
    assert!(EventPredicate::SoftBreak.test(&soft));
    assert!(!EventPredicate::SoftBreak.test(&html("<br>")));
    assert!(TextParser::ignore_if_softbreak(&soft));
}

#[test]
fn answers_are_merged() {
    let mut next = Next::default();
    assert!(next.replacement.is_none() && next.ignore.is_none());
    let current = source(0, EventKind::Other);
    assert_eq!(next.next_event(&current), &current);

    next.update_by(Next { replacement: Some(html("a")), ignore: None });
    next.update_by(Next { replacement: None, ignore: Some(Ignore::ForNext(2)) });
    assert_eq!(next.replacement, Some(html("a")));
    assert_eq!(next.ignore, Some(Ignore::ForNext(2)));
    assert_eq!(next.next_event(&current), &html("a"));

    next.update_by(Next { replacement: Some(html("b")), ignore: None });
    assert_eq!(next.replacement, Some(html("b")));
    assert_eq!(next.ignore, Some(Ignore::ForNext(2)));
}

#[test]
fn controls_are_built() {
    assert!(matches!(discard(), EventProcessControl::Break(BreakingEventProcess::Discard)));
    assert!(matches!(use_next(), EventProcessControl::Continue(next) if next.replacement.is_none() && next.ignore.is_none()));
    match use_html("<hr>") {
        EventProcessControl::Break(BreakingEventProcess::UseThisInstead(events)) => {
            assert_eq!(events, vec![html("<hr>")])
        }
        other => panic!("unexpected {other:?}"),
    }
    match use_this_instead(vec![html("a"), html("b")]) {
        EventProcessControl::Break(BreakingEventProcess::UseThisInstead(events)) => {
            assert_eq!(events.len(), 2)
        }
        other => panic!("unexpected {other:?}"),
    }
    match use_next_with(Next { replacement: Some(html("x")), ignore: Some(Ignore::ForNext(1)) }) {
        EventProcessControl::Continue(next) => {
            assert_eq!(next.replacement, Some(html("x")));
            assert_eq!(next.ignore, Some(Ignore::ForNext(1)));
        }
        other => panic!("unexpected {other:?}"),
    }
}

#[test]
fn sub_parsers_answer_one_by_one() {
    let mut frontmatter = FrontmatterSubParser::default();
    assert!(frontmatter.can_receive(&source(0, EventKind::MetadataStart)));
    assert!(matches!(
        frontmatter.receive_event(&source(0, EventKind::MetadataStart)),
        EventProcessControl::Break(BreakingEventProcess::Discard)
    ));
    assert!(!frontmatter.can_receive(&source(1, EventKind::Other)));
    assert!(!frontmatter.can_receive(&source(1, EventKind::MetadataEnd)));
    frontmatter.receive_event(&text(1, "k = 1"));
    assert!(!frontmatter.can_receive(&text(2, "l = 2")));
    frontmatter.receive_event(&source(2, EventKind::MetadataEnd));
    assert!(!frontmatter.can_receive(&source(3, EventKind::MetadataStart)));
    assert!(frontmatter.hands_on(&source(3, EventKind::Other)));
    assert_eq!(frontmatter.compose_output().body, Some("k = 1".to_string()));

    let mut footnote = FootnoteSubParser::default();
    assert_eq!(
        footnote.add_footnote_reference("n"),
        "<a id=\"fnref_n_1\" class=\"fnref-anchor\"></a><sup><a href=\"#fn_n\">#1</a></sup>"
    );
    assert_eq!(
        footnote.add_footnote_reference("m"),
        "<a id=\"fnref_m_1\" class=\"fnref-anchor\"></a><sup><a href=\"#fn_m\">#2</a></sup>"
    );
    assert_eq!(
        footnote.add_footnote_reference("n"),
        "<a id=\"fnref_n_2\" class=\"fnref-anchor\"></a><sup><a href=\"#fn_n\">#1</a></sup>"
    );
    assert!(footnote.finalize().is_none());

    let mut code = CodeBlockSubParser::default();
    assert!(code.hands_on(&source(0, EventKind::Other)));
    assert!(!code.hands_on(&source(0, EventKind::FencedCodeStart("rs".to_string()))));
    code.receive_event(&source(0, EventKind::FencedCodeStart("rs".to_string())));
    assert!(!code.can_receive(&source(1, EventKind::SoftBreak)));
    assert!(code.can_receive(&text(1, "fn f() {}")));
    assert!(code.compose_output().is_empty());

    let mut chain = SubParsers::new().expect("the chain");
    assert!(chain.can_receive(&text(0, "x")));
    match chain.receive_event(&text(0, "x :smile:")) {
        EventProcessControl::Continue(next) => {
            assert_eq!(next.replacement, Some(html(&format!("x {}", smile()))));
            assert_eq!(next.ignore, Some(Ignore::ForNextIf(1, EventPredicate::SoftBreak)));
        }
        other => panic!("unexpected {other:?}"),
    }
    assert!(chain.finalize().is_empty());

    let mut pipeline = MarkdownParserIter::new(SubParsers::new().expect("the chain"));
    assert!(pipeline.can_take(&text(0, "a")));
    assert_eq!(pipeline.next(text(0, "a")), vec![html("a")]);
    assert_eq!(pipeline.next(source(1, EventKind::SoftBreak)), vec![]);
    assert_eq!(pipeline.next(source(2, EventKind::SoftBreak)), vec![source(2, EventKind::SoftBreak)]);
    let mut out = Vec::new();
    assert!(pipeline.feed(&vec![definition(3, "f"), text(4, "kept")], &mut out));
    assert!(out.is_empty());
    let closing = pipeline.finalization();
    assert_eq!(
        closing,
        vec![
            html("<aside class=\"footnote-def\"><h1>脚注</h1><ol>"),
            html("<li id=\"fn_f\">"),
            text(4, "kept"),
            html("</li>"),
            html("</ol></aside>"),
        ]
    );
}

fn article_file(path: &str) -> ArticleFile {
    ArticleFile::from_file(
        &platemaker::fs::File::new_unchecked(path),
        &platemaker::fs::Directory::new_unchecked("/c"),
    )
    .expect("an article file")
}

fn metadata(title: &str) -> ArticleMetadata {
    ArticleMetadata { title: title.to_string(), brief: "".to_string(), widgets: Widgets::default() }
}

#[test]
fn an_article_is_made_of_file_name_metadata_and_text() {
    let file = article_file("/c/2024/3/07_hello.md");
    let decode = |frontmatter: &str| -> Result<ArticleMetadata, String> {
        match frontmatter.strip_prefix("title=") {
            Some(title) => Ok(metadata(title.trim())),
            None => Err(format!("no title in {frontmatter:?}")),
        }
    };

    let (article, said) =
        make_article_from_markdown(&file, "+++\ntitle=Hi\n+++\n\nText :nope_x:.\n\n```zz\nq\n```\n", &decode)
            .expect("an article");
    assert_eq!(said.unresolved_emojis, vec!["nope_x".to_string()]);
    assert_eq!(said.unknown_languages, vec!["zz".to_string()]);
    assert!(article.content.starts_with("<p>Text <!-- Unresolved emoji --> :nope_x:.</p>\n<code class=\"block\">"));

    let (article, said) = make_article_from_markdown(&file, "+++\ntitle=Hi\n+++\n\nText.\n", &decode)
        .expect("an article");
    assert!(said.unresolved_emojis.is_empty() && said.unknown_languages.is_empty());
    assert_eq!(article.id.slug, "hello");
    assert_eq!(article.id.date, (2024, 3, 7));
    assert_eq!(article.metadata.title, "Hi");
    assert_eq!(article.content, "<p>Text.</p>\n");

    match make_article_from_markdown(&file, "+++\nname=Hi\n+++\n\nText.\n", &decode) {
        Err(ParseError::InvalidToml(message)) => assert_eq!(message, "no title in \"name=Hi\\n\""),
        other => panic!("unexpected {other:?}"),
    }
    assert!(matches!(
        make_article_from_markdown(&file, "Text only.\n", &decode),
        Err(ParseError::NoFrontmatter)
    ));
    assert!(matches!(
        platemaker::markdown::parse_markdown(&file, "Text only.\n", &decode),
        Err(MarkdownProcessError::ParseError(ParseError::NoFrontmatter))
    ));
}

#[test]
fn errors_say_what_went_wrong() {
    assert_eq!(
        ParseError::NoFrontmatter.message(),
        "No TOML frontmatter was found. Write TOML frontmatter wrapped with `+++` at the top of the markdown content."
    );
    assert_eq!(
        ParseError::InvalidToml("bad".to_string()).message(),
        "The frontmatter could not be parsed or not valid metadata:\nbad"
    );
    assert_eq!(
        ParseError::InvalidStructure.message(),
        "The file is at the invalid location. Expected markdown files to be placed at `./$year/$month/$day[-$num]_$slug.md`."
    );
    assert_eq!(
        ParseError::InvalidPath.message(),
        "The file is at the path where cannot be represented in UTF-8."
    );
    assert!(!ParseError::Unprocessable.message().is_empty());
}

#[test]
fn markdown_files_are_known_by_their_name() {
    let is = |path: &str| is_markdown_path(&platemaker::fs::File::new_unchecked(path));

    assert!(is("/c/2024/3/a.md"));
    assert!(is("notes.md"));
    assert!(!is("/c/2024/3/a.txt"));
    assert!(!is("/c/2024/3/.md"));
    assert!(!is("/c/a.md/b"));
}
