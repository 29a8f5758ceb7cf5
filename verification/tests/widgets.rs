use platemaker::widgets::AiUsage;
use platemaker::widgets::ArticleType;
use platemaker::widgets::GroundingWidget;
use platemaker::widgets::Source;
use platemaker::widgets::Sources;
use platemaker::widgets::Widget;
use platemaker::widgets::Widgets;

fn two_sources() -> Sources {
    Sources(vec![
        Source::new("Book".to_string(), "https://a.example/b".to_string()),
        Source::new("Paper".to_string(), "https://c.example".to_string()),
    ])
}

#[test]
fn ai_usage_describes_itself() {
    assert_eq!(AiUsage::Unused.description(), ("AI not used", "この記事では AI は使っていません"));
    assert_eq!(AiUsage::Review.description(), ("AI used for review", "この記事は推敲に AI を使っています"));
    assert_eq!(
        AiUsage::NonText.description(),
        ("AI generated non-text contents", "テキスト以外のコンテンツで AI を使っています")
    );
    assert_eq!(
        AiUsage::ResearchSupport.description(),
        ("AI supported researching for this", "この記事を書くにあたって、AI と協力して調査しました")
    );
    assert_eq!(
        AiUsage::Research.description(),
        ("AI researched for this", "この記事を書くにあたって、AI に調査してもらいました")
    );
    assert_eq!(
        AiUsage::ArticleOutlining.description(),
        ("AI generated the outline", "記事の構成作成に AI を使っています")
    );
    assert_eq!(AiUsage::MainText.description(), ("AI generated the outline", "本文作成に AI を使っています"));
    assert_eq!(AiUsage::default(), AiUsage::Unused);
}

#[test]
fn heavy_use_is_research_outline_and_text() {
    assert!(!AiUsage::Unused.heavy_use());
    assert!(!AiUsage::Review.heavy_use());
    assert!(!AiUsage::NonText.heavy_use());
    assert!(!AiUsage::ResearchSupport.heavy_use());
    assert!(AiUsage::Research.heavy_use());
    assert!(AiUsage::ArticleOutlining.heavy_use());
    assert!(AiUsage::MainText.heavy_use());
}

#[test]
fn the_ai_widget_is_empty_when_unused() {
    assert_eq!(AiUsage::Unused.build(), "");
    assert_eq!(AiUsage::Review.build(), "\n            <span class=\"aiusage \">\n                <span class=\"brief\">AI used for review</span>\n                <span class=\"description\">この記事は推敲に AI を使っています</span>\n            </span>\n        ");
    assert_eq!(AiUsage::MainText.build(), "\n            <span class=\"aiusage aiusage-heavy\">\n                <span class=\"brief\">AI generated the outline</span>\n                <span class=\"description\">本文作成に AI を使っています</span>\n            </span>\n        ");
    assert_eq!(Widget::tag(&AiUsage::Review), "ai");
    assert_eq!(AiUsage::Review.style(), "\n            .aiusage {\n                border: 1px solid var(--primary);\n                color: var(--primary);\n                padding: 0px 6px;\n                width: fit-content;\n\n                &.aiusage-heavy {\n                    background-color: var(--primary);\n                    color: white;\n                }\n\n                .brief {\n                    font-style: italic;\n                }\n            }\n        ");
    assert_eq!(AiUsage::Review.render_widget(), ("ai", AiUsage::Review.build()));
}

#[test]
fn article_types_have_a_name_and_a_class() {
    assert_eq!(ArticleType::Activity.description(), "活動記録");
    assert_eq!(ArticleType::Research.description(), "学習記録");
    assert_eq!(ArticleType::Activity.class_name(), "article-activity");
    assert_eq!(ArticleType::Research.class_name(), "article-research");
    assert_eq!(ArticleType::default(), ArticleType::Activity);
    assert_eq!(ArticleType::Activity.build(), "\n            <h2 class=\"article-type\">\n                活動記録\n            </h2>\n        ");
    assert_eq!(ArticleType::Research.build(), "\n            <h2 class=\"article-type\">\n                学習記録\n            </h2>\n        ");
    assert_eq!(ArticleType::Research.style(), "");
    assert_eq!(Widget::tag(&ArticleType::Research), "type");
}

#[test]
fn a_source_is_a_list_item() {
    assert_eq!(
        Source::new("Book".to_string(), "https://a.example/b".to_string()).to_html(),
        "\n            <li class=\"source\">\n                <h4 class=\"name\">Book</h4>\n                <a href=https://a.example/b><span>https://a.example/b</span></a>\n            </li>\n        "
    );
}

#[test]
fn sources_are_a_section_or_nothing() {
    assert_eq!(Sources::default().build_content(), None);
    assert_eq!(Widget::build(&Sources::default()), "");
    assert_eq!(two_sources().title(), ("ARTICLE SOURCES", "この記事の参考文献"));
    assert_eq!(
        two_sources().build_content(),
        Some("<ul class=\"sources-list\">\n            <li class=\"source\">\n                <h4 class=\"name\">Book</h4>\n                <a href=https://a.example/b><span>https://a.example/b</span></a>\n            </li>\n        \n            <li class=\"source\">\n                <h4 class=\"name\">Paper</h4>\n                <a href=https://c.example><span>https://c.example</span></a>\n            </li>\n        </ul>".to_string())
    );
    assert_eq!(Widget::build(&two_sources()), "\n            <section>\n              <h3>\n                <span>ARTICLE SOURCES</span>\n                <span>この記事の参考文献</span>\n              </h3>\n              <div class=\"content\">\n                <ul class=\"sources-list\">\n            <li class=\"source\">\n                <h4 class=\"name\">Book</h4>\n                <a href=https://a.example/b><span>https://a.example/b</span></a>\n            </li>\n        \n            <li class=\"source\">\n                <h4 class=\"name\">Paper</h4>\n                <a href=https://c.example><span>https://c.example</span></a>\n            </li>\n        </ul>\n              </div>\n            </section>\n        ");
    assert_eq!(Widget::tag(&two_sources()), "sources");
    assert_eq!(Widget::style(&two_sources()), "\n            .sources-list {\n                display: flex;\n                flex-direction: column;\n                gap: 1em;\n            }\n\n            .source {\n                color: var(--typed-primary);\n                overflow-wrap: anywhere;\n            }\n\n            .name {\n                font-size: 1.25rem;\n            }\n        ");
    assert_eq!(two_sources().content_style(), Widget::style(&two_sources()));
}

#[test]
fn widgets_fill_their_placeholders() {
    let widgets = Widgets { ai: AiUsage::MainText, article_type: ArticleType::Research, sources: two_sources() };

    assert_eq!(widgets.concatenate_styles(), "\n            .aiusage {\n                border: 1px solid var(--primary);\n                color: var(--primary);\n                padding: 0px 6px;\n                width: fit-content;\n\n                &.aiusage-heavy {\n                    background-color: var(--primary);\n                    color: white;\n                }\n\n                .brief {\n                    font-style: italic;\n                }\n            }\n        \n            .sources-list {\n                display: flex;\n                flex-direction: column;\n                gap: 1em;\n            }\n\n            .source {\n                color: var(--typed-primary);\n                overflow-wrap: anywhere;\n            }\n\n            .name {\n                font-size: 1.25rem;\n            }\n        ");
    assert_eq!(
        widgets.render_to_placeholder_content(),
        vec![
            ("ai".to_string(), AiUsage::MainText.build()),
            ("type".to_string(), ArticleType::Research.build()),
            ("sources".to_string(), Widget::build(&two_sources())),
            ("widget_styles".to_string(), widgets.concatenate_styles()),
        ]
    );

    let none = Widgets::default();
    assert_eq!(
        none.render_to_placeholder_content(),
        vec![
            ("ai".to_string(), "".to_string()),
            ("type".to_string(), ArticleType::Activity.build()),
            ("sources".to_string(), "".to_string()),
            ("widget_styles".to_string(), none.concatenate_styles()),
        ]
    );
}
