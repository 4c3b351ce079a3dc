use dokukraft::{
    parse_events, parse_introduction, DocItem, Link, MdEvent, ParseErrorKind, SectionNumber,
    TagKind, Token,
};

fn tok(event: MdEvent, offset: usize) -> Token {
    Token { event, offset }
}

fn link_events(dest: &str, name: &str, at: usize) -> Vec<Token> {
    vec![
        tok(MdEvent::LinkStart(dest.to_string()), at),
        tok(MdEvent::Text(name.to_string()), at + 1),
        tok(MdEvent::End(TagKind::Link), at),
    ]
}

fn item_events(dest: &str, name: &str, at: usize) -> Vec<Token> {
    let mut v = vec![tok(MdEvent::Start(TagKind::Item), at)];
    v.extend(link_events(dest, name, at + 2));
    v.push(tok(MdEvent::End(TagKind::Item), at));
    v
}

fn heading_events(text: &str, at: usize) -> Vec<Token> {
    vec![
        tok(MdEvent::Start(TagKind::Heading(1)), at),
        tok(MdEvent::Text(text.to_string()), at + 2),
        tok(MdEvent::End(TagKind::Heading(1)), at),
    ]
}

fn link(name: &str, location: Option<&str>, number: Option<Vec<usize>>, children: Vec<DocItem>) -> DocItem {
    DocItem::Link(Link {
        name: name.to_string(),
        location: location.map(|l| l.to_string()),
        number: number.map(SectionNumber),
        nst_itms: children,
    })
}

fn chapter_numbers(items: &[DocItem]) -> Vec<Option<Vec<usize>>> {
    items
        .iter()
        .filter_map(|it| match it {
            DocItem::Link(l) => Some(l.number.as_ref().map(|n| n.0.clone())),
            _ => None,
        })
        .collect()
}

#[test]
fn end_to_end_example_from_events() {
    let src = "# My Book\n[Foreword](foreword.md)\n---\n# Part One\n- [Intro](intro.md)\n  - [Sub](sub.md)\n- [Outro](outro.md)\n[Thanks](thanks.md)\n";
    let mut ev = heading_events("My Book", 0);
    ev.extend(link_events("foreword.md", "Foreword", 10));
    ev.push(tok(MdEvent::Rule, 34));
    ev.extend(heading_events("Part One", 38));
    ev.push(tok(MdEvent::Start(TagKind::List(false)), 49));
    ev.push(tok(MdEvent::Start(TagKind::Item), 49));
    ev.extend(link_events("intro.md", "Intro", 51));
    ev.push(tok(MdEvent::Start(TagKind::List(false)), 71));
    ev.extend(item_events("sub.md", "Sub", 71));
    ev.push(tok(MdEvent::End(TagKind::List(false)), 71));
    ev.push(tok(MdEvent::End(TagKind::Item), 49));
    ev.extend(item_events("outro.md", "Outro", 88));
    ev.push(tok(MdEvent::End(TagKind::List(false)), 49));
    ev.push(tok(MdEvent::Start(TagKind::Paragraph), 108));
    ev.extend(link_events("thanks.md", "Thanks", 108));
    ev.push(tok(MdEvent::End(TagKind::Paragraph), 108));
    let intro = parse_events(src, ev).unwrap();
    assert_eq!(intro.title.as_deref(), Some("My Book"));
    assert_eq!(
        intro.prefix_sections,
        vec![link("Foreword", Some("foreword.md"), None, vec![]), DocItem::Separator]
    );
    assert_eq!(
        intro.numbered_sections,
        vec![
            DocItem::PartTitle("Part One".to_string()),
            link(
                "Intro",
                Some("intro.md"),
                Some(vec![1]),
                vec![link("Sub", Some("sub.md"), Some(vec![1, 1]), vec![])]
            ),
            link("Outro", Some("outro.md"), Some(vec![2]), vec![]),
        ]
    );
    assert_eq!(intro.suffix_sections, vec![link("Thanks", Some("thanks.md"), None, vec![])]);
}

#[test]
fn end_to_end_example_from_text() {
    let src = "# My Book\n\n[Foreword](foreword.md)\n\n---\n\n# Part One\n\n- [Intro](intro.md)\n  - [Sub](sub.md)\n- [Outro](outro.md)\n\n[Thanks](thanks.md)\n";
    let intro = parse_introduction(src).unwrap();
    assert_eq!(intro.title.as_deref(), Some("My Book"));
    assert_eq!(
        intro.prefix_sections,
        vec![link("Foreword", Some("foreword.md"), None, vec![]), DocItem::Separator]
    );
    assert_eq!(
        intro.numbered_sections,
        vec![
            DocItem::PartTitle("Part One".to_string()),
            link(
                "Intro",
                Some("intro.md"),
                Some(vec![1]),
                vec![link("Sub", Some("sub.md"), Some(vec![1, 1]), vec![])]
            ),
            link("Outro", Some("outro.md"), Some(vec![2]), vec![]),
        ]
    );
    assert_eq!(intro.suffix_sections, vec![link("Thanks", Some("thanks.md"), None, vec![])]);
}

#[test]
fn prefix_only_outline_keeps_links_in_order() {
    let src = "[One](one.md)\n[Two](two.md)\n\n---\n\n[Three](three.md)\n";
    let intro = parse_introduction(src).unwrap();
    assert_eq!(intro.title, None);
    assert!(intro.numbered_sections.is_empty());
    assert!(intro.suffix_sections.is_empty());
    assert_eq!(
        intro.prefix_sections,
        vec![
            link("One", Some("one.md"), None, vec![]),
            link("Two", Some("two.md"), None, vec![]),
            DocItem::Separator,
            link("Three", Some("three.md"), None, vec![]),
        ]
    );
}

#[test]
fn flat_list_is_numbered_in_order() {
    let src = "- [A](a.md)\n- [B](b.md)\n- [C](c.md)\n- [D](d.md)\n";
    let intro = parse_introduction(src).unwrap();
    assert_eq!(
        chapter_numbers(&intro.numbered_sections),
        vec![Some(vec![1]), Some(vec![2]), Some(vec![3]), Some(vec![4])]
    );
}

#[test]
fn nested_list_is_numbered_under_its_chapter() {
    let src = "- [A](a.md)\n- [B](b.md)\n  - [B1](b1.md)\n  - [B2](b2.md)\n  - [B3](b3.md)\n";
    let intro = parse_introduction(src).unwrap();
    assert_eq!(intro.numbered_sections.len(), 2);
    match &intro.numbered_sections[1] {
        DocItem::Link(b) => {
            assert_eq!(b.number, Some(SectionNumber(vec![2])));
            assert_eq!(
                chapter_numbers(&b.nst_itms),
                vec![Some(vec![2, 1]), Some(vec![2, 2]), Some(vec![2, 3])]
            );
        }
        other => panic!("expected a link, got {:?}", other),
    }
}

#[test]
fn numbering_continues_across_parts() {
    let src = "# Book\n\n# Part A\n\n- [a](a.md)\n- [b](b.md)\n- [c](c.md)\n\n# Part B\n\n- [d](d.md)\n- [e](e.md)\n";
    let intro = parse_introduction(src).unwrap();
    assert_eq!(intro.title.as_deref(), Some("Book"));
    assert_eq!(intro.numbered_sections[0], DocItem::PartTitle("Part A".to_string()));
    assert_eq!(intro.numbered_sections[4], DocItem::PartTitle("Part B".to_string()));
    assert_eq!(
        chapter_numbers(&intro.numbered_sections),
        vec![Some(vec![1]), Some(vec![2]), Some(vec![3]), Some(vec![4]), Some(vec![5])]
    );
}

#[test]
fn part_title_without_chapters_is_kept() {
    let src = "# Book\n\n# Empty Part\n\n# Part B\n\n- [d](d.md)\n";
    let intro = parse_introduction(src).unwrap();
    assert_eq!(
        intro.numbered_sections,
        vec![
            DocItem::PartTitle("Empty Part".to_string()),
            DocItem::PartTitle("Part B".to_string()),
            link("d", Some("d.md"), Some(vec![1]), vec![]),
        ]
    );
}

#[test]
fn list_in_suffix_is_an_error_with_location() {
    let src = "- [a](a.md)\n\n[x](x.md)\n\n- [bad](bad.md)\n";
    let err = parse_introduction(src).unwrap_err();
    assert_eq!(err.kind, ParseErrorKind::SuffixFollowedByList);
    assert_eq!((err.line, err.column), (5, 1));
    assert_eq!(err.message(), "Suffix sections cannot be followed by a list");
    assert_eq!(err.context(), "There was an error parsing the suffix sections");
}

#[test]
fn suffix_of_links_and_separators_succeeds() {
    let src = "- [a](a.md)\n\n[x](x.md)\n\n---\n\n[y](y.md)\n";
    let intro = parse_introduction(src).unwrap();
    assert_eq!(
        intro.suffix_sections,
        vec![
            link("x", Some("x.md"), None, vec![]),
            DocItem::Separator,
            link("y", Some("y.md"), None, vec![]),
        ]
    );
}

#[test]
fn suffix_list_error_from_events() {
    let src = "a\nx\ny";
    let mut ev = vec![tok(MdEvent::Start(TagKind::List(false)), 0)];
    ev.extend(item_events("a.md", "a", 0));
    ev.push(tok(MdEvent::End(TagKind::List(false)), 0));
    ev.push(tok(MdEvent::Start(TagKind::Paragraph), 2));
    ev.extend(link_events("x.md", "x", 2));
    ev.push(tok(MdEvent::End(TagKind::Paragraph), 2));
    ev.push(tok(MdEvent::Start(TagKind::List(false)), 4));
    let err = parse_events(src, ev).unwrap_err();
    assert_eq!(err.kind, ParseErrorKind::SuffixFollowedByList);
    assert_eq!((err.line, err.column), (3, 1));
}

#[test]
fn list_item_without_link_is_an_error() {
    let src = "- [a](a.md)\n- just text\n";
    let err = parse_introduction(src).unwrap_err();
    assert_eq!(err.kind, ParseErrorKind::ItemWithoutLink);
    assert_eq!(err.line, 2);
    assert_eq!(err.context(), "There was an error parsing the numbered sections");
}

#[test]
fn encoded_spaces_and_drafts() {
    let src = "- [My Chapter](my%20chapter%20one.md)\n- [Draft]()\n";
    let intro = parse_introduction(src).unwrap();
    assert_eq!(
        intro.numbered_sections,
        vec![
            link("My Chapter", Some("my chapter one.md"), Some(vec![1]), vec![]),
            link("Draft", None, Some(vec![2]), vec![]),
        ]
    );
}

#[test]
fn empty_outline() {
    let intro = parse_introduction("").unwrap();
    assert_eq!(intro.title, None);
    assert!(intro.prefix_sections.is_empty());
    assert!(intro.numbered_sections.is_empty());
    assert!(intro.suffix_sections.is_empty());
}

#[test]
fn title_flattens_inline_code() {
    let src = "# The `core`\nbook\n";
    let intro = parse_introduction(src).unwrap();
    assert_eq!(intro.title.as_deref(), Some("The core"));
}

#[test]
fn link_name_across_lines_joins_with_a_space() {
    let intro = parse_introduction("[two\nlines](x.md)\n").unwrap();
    assert_eq!(intro.prefix_sections, vec![link("two lines", Some("x.md"), None, vec![])]);
}

#[test]
fn unrecognised_blocks_in_numbered_region_are_skipped() {
    let src = "- [a](a.md)\n\n> quoted [q](q.md)\n\n- [b](b.md)\n";
    let mut ev = vec![tok(MdEvent::Start(TagKind::List(false)), 0)];
    ev.extend(item_events("a.md", "a", 0));
    ev.push(tok(MdEvent::End(TagKind::List(false)), 0));
    ev.push(tok(MdEvent::Start(TagKind::BlockQuote), 13));
    ev.extend(link_events("q.md", "q", 22));
    ev.push(tok(MdEvent::End(TagKind::BlockQuote), 13));
    ev.push(tok(MdEvent::Start(TagKind::List(false)), 34));
    ev.extend(item_events("b.md", "b", 34));
    ev.push(tok(MdEvent::End(TagKind::List(false)), 34));
    let intro = parse_events(src, ev).unwrap();
    assert_eq!(
        intro.numbered_sections,
        vec![
            link("a", Some("a.md"), Some(vec![1]), vec![]),
            link("b", Some("b.md"), Some(vec![2]), vec![]),
        ]
    );
}
