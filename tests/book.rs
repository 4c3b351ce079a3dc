use dokukraft::text::{decode_percent_spaces, locate};
use dokukraft::{
    build_plan, for_each_mut, init_docgen, parse_introduction, Config, Deprecation, DocGenerator,
    DocItem, Docgen, EventCursor, HtmlConfig, KeepItems, Link, MdEvent, SectionNumber, Stage,
    TagKind, Token,
};
use dokukraft::parser::link_destination;

fn names(items: &[&DocItem]) -> Vec<String> {
    items
        .iter()
        .map(|it| match it {
            DocItem::Link(l) => l.name.clone(),
            DocItem::Separator => "---".to_string(),
            DocItem::PartTitle(t) => format!("# {}", t),
        })
        .collect()
}

#[test]
fn iter_walks_in_preorder() {
    let src = "[Pre](pre.md)\n\n# Part\n\n- [A](a.md)\n  - [A1](a1.md)\n    - [A1a](a1a.md)\n- [B](b.md)\n\n[Post](post.md)\n";
    let book = init_docgen(src).unwrap();
    let order = names(&book.iter());
    assert_eq!(order, vec!["Pre", "# Part", "A", "A1", "A1a", "B", "Post"]);
}

#[test]
fn keeping_visitor_leaves_tree_unchanged() {
    let src = "# T\n\n[Pre](pre.md)\n\n---\n\n- [A](a%20b.md)\n  - [A1](a1.md)\n- [B]()\n\n[Post](post.md)\n";
    let mut book = init_docgen(src).unwrap();
    let before = init_docgen(src).unwrap();
    book.for_each_mut(&KeepItems);
    assert_eq!(book.sections, before.sections);
    let mut items = init_docgen(src).unwrap().sections;
    for_each_mut(&KeepItems, &mut items);
    assert_eq!(items, before.sections);
}

#[test]
fn book_of_an_outline_joins_its_regions() {
    let intro = parse_introduction("[P](p.md)\n\n- [A](a.md)\n\n[S](s.md)\n").unwrap();
    let book = Docgen::from_introduction(intro);
    assert_eq!(book.sections.len(), 3);
    assert_eq!(Docgen::new().sections.len(), 0);
    assert!(init_docgen("- [a](a.md)\n\n[x](x.md)\n\n- [b](b.md)\n").is_err());
}

#[test]
fn percent_spaces_are_decoded() {
    assert_eq!(decode_percent_spaces("a%20b%20"), "a b ");
    assert_eq!(decode_percent_spaces("%2%200"), "%2 0");
    assert_eq!(decode_percent_spaces("plain.md"), "plain.md");
    assert_eq!(link_destination(&"my%20file.md".to_string()), Some("my file.md".to_string()));
    assert_eq!(link_destination(&String::new()), None);
}

#[test]
fn offsets_become_lines_and_columns() {
    assert_eq!(locate("ab\ncd\nef", 0), (1, 1));
    assert_eq!(locate("ab\ncd\nef", 4), (2, 2));
    assert_eq!(locate("ab\ncd\nef", 6), (3, 1));
    assert_eq!(locate("ab", 10), (1, 3));
}

#[test]
fn cursor_pushes_back_one_event() {
    let events = vec![
        Token { event: MdEvent::Rule, offset: 0 },
        Token { event: MdEvent::Start(TagKind::Paragraph), offset: 4 },
    ];
    let mut cursor = EventCursor::new(events);
    assert!(cursor.next());
    assert_eq!(cursor.current(), &MdEvent::Rule);
    assert!(cursor.next());
    cursor.back();
    assert!(cursor.next());
    assert_eq!(cursor.current(), &MdEvent::Start(TagKind::Paragraph));
    assert_eq!(cursor.current_location("---\nx"), (2, 1));
    assert!(!cursor.next());
}

#[test]
fn link_constructors() {
    let l = Link::new("Intro", "intro.md");
    assert_eq!(l.name, "Intro");
    assert_eq!(l.location.as_deref(), Some("intro.md"));
    assert_eq!(l.number, None);
    assert!(l.nst_itms.is_empty());
    let d = Link::default();
    assert_eq!(d.name, "");
    assert_eq!(d.location.as_deref(), Some(""));
    let mut item = DocItem::from(Link::new("A", "a.md"));
    if let Some(link) = item.conf_link_mut() {
        link.number = Some(SectionNumber(vec![7]));
    }
    match &item {
        DocItem::Link(l) => assert_eq!(l.number, Some(SectionNumber(vec![7]))),
        _ => panic!("expected a link"),
    }
    assert!(DocItem::Separator.conf_link_mut().is_none());
}

#[test]
fn generator_builders_and_layout() {
    let mut g = DocGenerator::new("book_root");
    g.generate_gitign(true).duplicate_theme(true);
    assert_eq!(g.config().docgen.src, "src");
    assert_eq!(g.config().build.build_dir, "book");
    assert_eq!(g.make_dir_struct(), vec!["book_root", "book_root/src", "book_root/book"]);
    let stubs = g.gen_stub_files();
    assert_eq!(stubs[0].path, "book_root/src/INTRODUCTION.md");
    assert_eq!(stubs[1].path, "book_root/src/chapter_1.md");
    let outline = parse_introduction(&stubs[0].contents).unwrap();
    assert_eq!(outline.numbered_sections.len(), 1);
    let ignore = g.gen_gitign().unwrap();
    assert_eq!(ignore.path, "book_root/.gitignore");
    assert_eq!(ignore.contents, "book\n");
    let mut cfg = Config::default_config();
    cfg.build.build_dir = "out/".to_string();
    g.wconfig(cfg).generate_gitign(false);
    assert_eq!(g.make_dir_struct()[2], "book_root/out/");
    assert!(g.gen_gitign().is_none());
    assert_eq!(dokukraft::init::join("", "x"), "x");
    assert_eq!(dokukraft::init::join("a/", "x"), "a/x");
    assert_eq!(dokukraft::init::join("a", "/x"), "/x");
}

#[test]
fn deprecated_settings_are_listed() {
    let mut cfg = Config::default_config();
    assert!(cfg.deprecations().is_empty());
    assert!(cfg.html_config().is_none());
    cfg.html = Some(HtmlConfig { theme: None, print_enable: true, google_analytics: Some("UA-1".to_string()), curly_quotes: true });
    assert_eq!(cfg.deprecations(), vec![Deprecation::GoogleAnalytics, Deprecation::CurlyQuotes]);
    cfg.html = Some(HtmlConfig { theme: Some("look".to_string()), print_enable: false, google_analytics: None, curly_quotes: true });
    assert_eq!(cfg.deprecations(), vec![Deprecation::CurlyQuotes]);
    assert!(Deprecation::CurlyQuotes.message().contains("smart-punctuation"));
    let mut g = DocGenerator::new("r");
    assert_eq!(g.dup_theme().len(), 7);
    assert_eq!(g.dup_theme()[0], "r/theme/index.hbs");
    g.wconfig(cfg);
    let files = g.dup_theme();
    assert_eq!(files.len(), 6);
    assert_eq!(files[2], "r/look/css/chrome.css");
    assert_eq!(files[3], "r/look/css/variables.css");
}

#[test]
fn build_plan_skips_unsupporting_preprocessors() {
    assert_eq!(
        build_plan(&vec![true, false, true], 2),
        vec![Stage::Preprocess(0), Stage::Preprocess(2), Stage::Render(0), Stage::Render(1)]
    );
    assert_eq!(build_plan(&vec![], 0), vec![]);
    assert_eq!(build_plan(&vec![false], 1), vec![Stage::Render(0)]);
}

#[test]
fn section_numbers_are_written_with_dots() {
    assert_eq!(SectionNumber(vec![1, 2, 3]).dotted(), "1.2.3");
    assert_eq!(SectionNumber(vec![10, 0, 205]).dotted(), "10.0.205");
    assert_eq!(SectionNumber(vec![]).dotted(), "");
    assert_eq!(SectionNumber(vec![usize::MAX]).dotted(), usize::MAX.to_string());
}
