//! Laws of the outline compiler, stated over the event streams of common outline shapes.
use crate::introduction::{IntroductionModel, ItemModel, LinkModel};
use crate::markdown::{MdEvent, TagKind, Token};
use crate::parser::{
    affix, closes_list, item_at, link_at, link_location, nested, numbered, opens_h1, opens_item,
    opens_list, opens_paragraph, outline, parts, text_until, title_of, with_children, ErrorAt,
    ParseErrorKind,
};
use vstd::prelude::*;

verus! {

/// Events `q..q+3` are a link with a plain name: `LinkStart`, `Text`, `End(Link)`.
pub open spec fn link_segment(ev: Seq<Token>, q: int) -> bool {
    &&& 0 <= q
    &&& q + 3 <= ev.len()
    &&& ev[q].event is LinkStart
    &&& ev[q + 1].event is Text
    &&& ev[q + 2].event == MdEvent::End(TagKind::Link)
}

/// The link that the segment at `q` describes, with the given number.
pub open spec fn segment_link(ev: Seq<Token>, q: int, number: Option<Seq<int>>) -> LinkModel {
    LinkModel {
        name: ev[q + 1].event->Text_0@,
        location: link_location(ev[q].event->LinkStart_0@),
        number,
        children: Seq::empty(),
    }
}

/// Events `q..q+5` are a list item holding one link: `Start(Item)`, a link, `End(Item)`.
pub open spec fn item_segment(ev: Seq<Token>, q: int) -> bool {
    &&& ev[q].event == MdEvent::Start(TagKind::Item)
    &&& link_segment(ev, q + 1)
    &&& q + 5 <= ev.len()
    &&& ev[q + 4].event == MdEvent::End(TagKind::Item)
}

/// From `pos` on, `n` list items of one link each, then the end of the list.
pub open spec fn flat_list_body(ev: Seq<Token>, pos: int, n: nat) -> bool {
    &&& 0 <= pos
    &&& pos + 5 * n < ev.len()
    &&& forall|k: int| 0 <= k < n ==> #[trigger] item_segment(ev, pos + 5 * k)
    &&& closes_list(ev[pos + 5 * n].event)
}

/// The chapters of a flat list body at `pos`: the k-th (from 0) numbered `parent` followed
/// by `first + k`.
pub open spec fn flat_chapters(
    ev: Seq<Token>,
    pos: int,
    parent: Seq<int>,
    first: int,
    n: nat,
) -> Seq<ItemModel> {
    Seq::new(
        n,
        |k: int| ItemModel::Link(segment_link(ev, pos + 5 * k + 1, Some(parent.push(first + k)))),
    )
}

proof fn lemma_text_then_end(ev: Seq<Token>, q: int, end: TagKind)
    requires
        0 <= q,
        q + 2 <= ev.len(),
        ev[q].event is Text,
        ev[q + 1].event == MdEvent::End(end),
    ensures
        text_until(ev, q as nat, end) == (ev[q].event->Text_0@, (q + 2) as nat),
{
    let rest = text_until(ev, (q + 1) as nat, end);
    assert(rest == (Seq::<char>::empty(), (q + 2) as nat));
    assert(ev[q].event->Text_0@ + Seq::<char>::empty() =~= ev[q].event->Text_0@);
}

proof fn lemma_link_segment(ev: Seq<Token>, q: int)
    requires
        link_segment(ev, q),
    ensures
        link_at(ev, (q + 1) as nat, ev[q].event->LinkStart_0@) == (
            segment_link(ev, q, None),
            (q + 3) as nat,
        ),
{
    lemma_text_then_end(ev, q + 1, TagKind::Link);
}

/// A flat list body numbers its chapters one after another: after the chapters in `acc`,
/// the k-th chapter of the body (from 0) is numbered `parent` followed by
/// `base + acc.len() + k + 1`.
pub proof fn law_flat_list_numbering(
    ev: Seq<Token>,
    pos: int,
    parent: Seq<int>,
    base: int,
    acc: Seq<ItemModel>,
    n: nat,
)
    requires
        flat_list_body(ev, pos, n),
    ensures
        nested(ev, pos as nat, parent, base, acc) == Ok::<_, ErrorAt>(
            (
                acc + flat_chapters(ev, pos, parent, base + acc.len() + 1, n),
                (pos + 5 * n + 1) as nat,
            ),
        ),
    decreases n,
{
    if n == 0 {
        assert(acc + flat_chapters(ev, pos, parent, base + acc.len() + 1, n) =~= acc);
    } else {
        assert(item_segment(ev, pos + 5 * 0));
        let number = parent.push(base + acc.len() + 1);
        lemma_link_segment(ev, pos + 1);
        let l = segment_link(ev, pos + 1, Some(number));
        assert(item_at(ev, (pos + 1) as nat, number) == Ok::<_, ErrorAt>((l, (pos + 4) as nat)));
        assert(flat_list_body(ev, pos + 5, (n - 1) as nat)) by {
            assert forall|k: int| 0 <= k < n - 1 implies #[trigger] item_segment(
                ev,
                pos + 5 + 5 * k,
            ) by {
                assert(item_segment(ev, pos + 5 * (k + 1)));
                assert(pos + 5 * (k + 1) == pos + 5 + 5 * k);
            }
            assert(pos + 5 + 5 * (n - 1) == pos + 5 * n);
        }
        let acc1 = acc.push(ItemModel::Link(l));
        law_flat_list_numbering(ev, pos + 5, parent, base, acc1, (n - 1) as nat);
        assert(!opens_item(ev[pos + 4].event) && !opens_list(ev[pos + 4].event) && !closes_list(
            ev[pos + 4].event,
        ));
        assert(nested(ev, (pos + 4) as nat, parent, base, acc1) == nested(
            ev,
            (pos + 5) as nat,
            parent,
            base,
            acc1,
        ));
        assert(acc1 + flat_chapters(ev, pos + 5, parent, base + acc1.len() + 1, (n - 1) as nat)
            =~= acc + flat_chapters(ev, pos, parent, base + acc.len() + 1, n)) by {
            assert(pos + 5 * n + 1 == pos + 5 + 5 * (n - 1) + 1);
            assert forall|k: int| 0 <= k < n - 1 implies #[trigger] flat_chapters(
                ev,
                pos + 5,
                parent,
                base + acc1.len() + 1,
                (n - 1) as nat,
            )[k] == flat_chapters(ev, pos, parent, base + acc.len() + 1, n)[k + 1] by {
                assert(pos + 5 + 5 * k + 1 == pos + 5 * (k + 1) + 1);
            }
        }
        assert(pos + 5 * n + 1 == pos + 5 + 5 * (n - 1) + 1);
    }
}

/// An outline that is one flat list of `n` chapters compiles to those chapters in order, the
/// i-th numbered `i`, with no title, prefix or suffix.
pub proof fn law_flat_list_outline(ev: Seq<Token>, n: nat)
    requires
        ev.len() == 5 * n + 2,
        opens_list(ev[0].event),
        flat_list_body(ev, 1, n),
    ensures
        outline(ev) == Ok::<_, ErrorAt>(
            IntroductionModel {
                title: None,
                prefix_sections: Seq::empty(),
                numbered_sections: flat_chapters(ev, 1, Seq::empty(), 1, n),
                suffix_sections: Seq::empty(),
            },
        ),
{
    let e = Seq::<ItemModel>::empty();
    let chapters = flat_chapters(ev, 1, Seq::empty(), 1, n);
    let len = ev.len();
    law_flat_list_numbering(ev, 1, Seq::empty(), 0, e, n);
    assert(e + chapters =~= chapters);
    assert(!opens_item(ev[0].event) && !opens_h1(ev[0].event) && !opens_paragraph(ev[0].event));
    assert(nested(ev, 0, Seq::empty(), 0, e) == Ok::<_, ErrorAt>((chapters, len)));
    assert(numbered(ev, len, n as int, false, chapters) == Ok::<_, ErrorAt>((chapters, len, n as int)));
    assert(numbered(ev, 0, 0, true, e) == Ok::<_, ErrorAt>((chapters, len, n as int)));
    assert(parts(ev, len, n as int, chapters) == Ok::<_, ErrorAt>((chapters, len)));
    assert(parts(ev, 0, 0, e) == Ok::<_, ErrorAt>((chapters, len)));
    assert(title_of(ev) == (None::<Seq<char>>, 0nat));
    assert(affix(ev, 0, true, e) == Ok::<_, ErrorAt>((e, 0nat)));
    assert(affix(ev, len, false, e) == Ok::<_, ErrorAt>((e, len)));
}

/// An outline whose one chapter holds a nested list of `m` chapters compiles to that chapter,
/// numbered 1, whose nested chapters are numbered 1.1 to 1.m in order. (For a chapter
/// numbered anything else, `law_flat_list_numbering` with that number as `parent` gives
/// the same.)
pub proof fn law_nested_list_outline(ev: Seq<Token>, m: nat)
    requires
        ev.len() == 5 * m + 9,
        opens_list(ev[0].event),
        ev[1].event == MdEvent::Start(TagKind::Item),
        link_segment(ev, 2),
        opens_list(ev[5].event),
        flat_list_body(ev, 6, m),
        ev[(5 * m + 7) as int].event == MdEvent::End(TagKind::Item),
        closes_list(ev[(5 * m + 8) as int].event),
    ensures
        outline(ev) == Ok::<_, ErrorAt>(
            IntroductionModel {
                title: None,
                prefix_sections: Seq::empty(),
                numbered_sections: seq![
                    ItemModel::Link(
                        LinkModel {
                            name: ev[3].event->Text_0@,
                            location: link_location(ev[2].event->LinkStart_0@),
                            number: Some(seq![1int]),
                            children: flat_chapters(ev, 6, seq![1int], 1, m),
                        },
                    ),
                ],
                suffix_sections: Seq::empty(),
            },
        ),
{
    let e = Seq::<ItemModel>::empty();
    let len = ev.len();
    let one = seq![1int];
    assert(Seq::<int>::empty().push(0int + 0 + 1) =~= one);
    lemma_link_segment(ev, 2);
    let l1 = segment_link(ev, 2, Some(one));
    assert(item_at(ev, 2, one) == Ok::<_, ErrorAt>((l1, 5nat)));
    let subs = flat_chapters(ev, 6, one, 1, m);
    law_flat_list_numbering(ev, 6, one, 0, e, m);
    assert(e + subs =~= subs);
    let top = seq![with_children(ItemModel::Link(l1), subs)];
    assert(seq![ItemModel::Link(l1)].drop_last().push(with_children(ItemModel::Link(l1), subs))
        =~= top);
    assert(nested(ev, (5 * m + 8) as nat, Seq::empty(), 0, top) == Ok::<_, ErrorAt>((top, len)));
    assert(nested(ev, (5 * m + 7) as nat, Seq::empty(), 0, top) == Ok::<_, ErrorAt>((top, len)));
    assert(nested(ev, 5, Seq::empty(), 0, seq![ItemModel::Link(l1)]) == Ok::<_, ErrorAt>(
        (top, len),
    ));
    assert(e.push(ItemModel::Link(l1)) =~= seq![ItemModel::Link(l1)]);
    assert(nested(ev, 1, Seq::empty(), 0, e) == Ok::<_, ErrorAt>((top, len)));
    assert(nested(ev, 0, Seq::empty(), 0, e) == Ok::<_, ErrorAt>((top, len)));
    assert(e + top =~= top);
    assert(top.len() == 1);
    assert(numbered(ev, len, 1int, false, top) == Ok::<_, ErrorAt>((top, len, 1int)));
    assert(numbered(ev, 0, 0, true, e) == Ok::<_, ErrorAt>((top, len, 1int)));
    assert(parts(ev, len, 1int, top) == Ok::<_, ErrorAt>((top, len)));
    assert(parts(ev, 0, 0, e) == Ok::<_, ErrorAt>((top, len)));
    assert(affix(ev, 0, true, e) == Ok::<_, ErrorAt>((e, 0nat)));
    assert(affix(ev, len, false, e) == Ok::<_, ErrorAt>((e, len)));
}

/// Numbering continues across parts: in an outline with a title, then a part `a` holding a
/// flat list of `n1` chapters, then a part `b` holding a flat list of `n2` chapters, the
/// chapters of `a` are numbered 1 to `n1` and those of `b` from `n1 + 1` to `n1 + n2`.
pub proof fn law_parts_number_continuously(ev: Seq<Token>, n1: nat, n2: nat)
    requires
        ev.len() == 5 * n1 + 5 * n2 + 13,
        opens_h1(ev[0].event),
        ev[1].event is Text,
        ev[2].event == MdEvent::End(TagKind::Heading(1)),
        opens_h1(ev[3].event),
        ev[4].event is Text,
        ev[5].event == MdEvent::End(TagKind::Heading(1)),
        opens_list(ev[6].event),
        flat_list_body(ev, 7, n1),
        opens_h1(ev[(5 * n1 + 8) as int].event),
        ev[(5 * n1 + 9) as int].event is Text,
        ev[(5 * n1 + 10) as int].event == MdEvent::End(TagKind::Heading(1)),
        opens_list(ev[(5 * n1 + 11) as int].event),
        flat_list_body(ev, (5 * n1 + 12) as int, n2),
    ensures
        outline(ev) == Ok::<_, ErrorAt>(
            IntroductionModel {
                title: Some(ev[1].event->Text_0@),
                prefix_sections: Seq::empty(),
                numbered_sections: seq![ItemModel::PartTitle(ev[4].event->Text_0@)]
                    + flat_chapters(ev, 7, Seq::empty(), 1, n1)
                    + seq![ItemModel::PartTitle(ev[(5 * n1 + 9) as int].event->Text_0@)]
                    + flat_chapters(ev, (5 * n1 + 12) as int, Seq::empty(), (n1 + 1) as int, n2),
                suffix_sections: Seq::empty(),
            },
        ),
{
    let e = Seq::<ItemModel>::empty();
    let len = ev.len();
    let q: int = (5 * n1 + 8) as int;
    let h1 = TagKind::Heading(1);
    lemma_text_then_end(ev, 1, h1);
    lemma_text_then_end(ev, 4, h1);
    lemma_text_then_end(ev, q + 1, h1);
    let a = ev[4].event->Text_0@;
    let b = ev[q + 1].event->Text_0@;
    let fc1 = flat_chapters(ev, 7, Seq::empty(), 1, n1);
    let fc2 = flat_chapters(ev, q + 4, Seq::empty(), (n1 + 1) as int, n2);
    law_flat_list_numbering(ev, 7, Seq::empty(), 0, e, n1);
    law_flat_list_numbering(ev, q + 4, Seq::empty(), n1 as int, e, n2);
    assert(e + fc1 =~= fc1);
    assert(e + fc2 =~= fc2);
    assert(!opens_paragraph(ev[q].event) && !opens_paragraph(ev[3].event));
    assert(nested(ev, 6, Seq::empty(), 0, e) == Ok::<_, ErrorAt>((fc1, q as nat)));
    assert(numbered(ev, q as nat, n1 as int, false, fc1) == Ok::<_, ErrorAt>(
        (fc1, q as nat, n1 as int),
    ));
    assert(numbered(ev, 6, 0, true, e) == Ok::<_, ErrorAt>((fc1, q as nat, n1 as int)));
    assert(nested(ev, (q + 3) as nat, Seq::empty(), n1 as int, e) == Ok::<_, ErrorAt>(
        (fc2, len),
    ));
    assert(numbered(ev, len, (n1 + n2) as int, false, fc2) == Ok::<_, ErrorAt>((fc2, len, (n1 + n2) as int)));
    assert(numbered(ev, (q + 3) as nat, n1 as int, true, e) == Ok::<_, ErrorAt>(
        (fc2, len, (n1 + n2) as int),
    ));
    let acc1 = e.push(ItemModel::PartTitle(a)) + fc1;
    let acc2 = acc1.push(ItemModel::PartTitle(b)) + fc2;
    assert(parts(ev, len, (n1 + n2) as int, acc2) == Ok::<_, ErrorAt>((acc2, len)));
    assert(parts(ev, q as nat, n1 as int, acc1) == Ok::<_, ErrorAt>((acc2, len)));
    assert(parts(ev, 3, 0, e) == Ok::<_, ErrorAt>((acc2, len)));
    assert(acc2 =~= seq![ItemModel::PartTitle(a)] + fc1 + seq![ItemModel::PartTitle(b)] + fc2);
    assert(affix(ev, 3, true, e) == Ok::<_, ErrorAt>((e, 3nat)));
    assert(affix(ev, len, false, e) == Ok::<_, ErrorAt>((e, len)));
}

/// From `pos` on, the events are links with plain names and events that open no link, no
/// list and no top-level heading.
pub open spec fn links_only(ev: Seq<Token>, pos: nat) -> bool
    decreases ev.len() - pos,
{
    if pos >= ev.len() {
        true
    } else if link_segment(ev, pos as int) {
        links_only(ev, pos + 3)
    } else {
        &&& !(ev[pos as int].event is LinkStart)
        &&& !opens_list(ev[pos as int].event)
        &&& !opens_h1(ev[pos as int].event)
        &&& links_only(ev, pos + 1)
    }
}

/// The links (unnumbered) and separators that the events from `pos` on hold, in order.
pub open spec fn listed_items(ev: Seq<Token>, pos: nat) -> Seq<ItemModel>
    decreases ev.len() - pos,
{
    if pos >= ev.len() {
        Seq::empty()
    } else if link_segment(ev, pos as int) {
        seq![ItemModel::Link(segment_link(ev, pos as int, None))] + listed_items(ev, pos + 3)
    } else if ev[pos as int].event is Rule {
        seq![ItemModel::Separator] + listed_items(ev, pos + 1)
    } else {
        listed_items(ev, pos + 1)
    }
}

/// Events from `pos` on that hold only links and separators are read, as prefix or as
/// suffix region, into exactly those links and separators, in order, and never fail.
pub proof fn law_links_only_region(ev: Seq<Token>, pos: nat, prefix: bool, acc: Seq<ItemModel>)
    requires
        links_only(ev, pos),
        pos <= ev.len(),
    ensures
        affix(ev, pos, prefix, acc) == Ok::<_, ErrorAt>(
            (acc + listed_items(ev, pos), ev.len() as nat),
        ),
    decreases ev.len() - pos,
{
    if pos >= ev.len() {
        assert(acc + Seq::<ItemModel>::empty() =~= acc);
    } else if link_segment(ev, pos as int) {
        lemma_link_segment(ev, pos as int);
        let it = ItemModel::Link(segment_link(ev, pos as int, None));
        law_links_only_region(ev, pos + 3, prefix, acc.push(it));
        assert(acc.push(it) + listed_items(ev, pos + 3) =~= acc + (seq![it] + listed_items(
            ev,
            pos + 3,
        )));
    } else if ev[pos as int].event is Rule {
        law_links_only_region(ev, pos + 1, prefix, acc.push(ItemModel::Separator));
        assert(acc.push(ItemModel::Separator) + listed_items(ev, pos + 1) =~= acc + (seq![
            ItemModel::Separator,
        ] + listed_items(ev, pos + 1)));
    } else {
        law_links_only_region(ev, pos + 1, prefix, acc);
    }
}

/// An outline of links and separators only, with no list and no top-level heading,
/// compiles to a prefix holding exactly those links and separators in source order, and
/// to no title, numbered items or suffix.
pub proof fn law_links_only_outline(ev: Seq<Token>)
    requires
        links_only(ev, 0),
    ensures
        outline(ev) == Ok::<_, ErrorAt>(
            IntroductionModel {
                title: None,
                prefix_sections: listed_items(ev, 0),
                numbered_sections: Seq::empty(),
                suffix_sections: Seq::empty(),
            },
        ),
{
    let e = Seq::<ItemModel>::empty();
    law_links_only_region(ev, 0, true, e);
    assert(e + listed_items(ev, 0) =~= listed_items(ev, 0));
    if ev.len() > 0 {
        if link_segment(ev, 0) {
            assert(!opens_h1(ev[0].event));
        }
    }
    assert(title_of(ev) == (None::<Seq<char>>, 0nat));
    assert(affix(ev, ev.len() as nat, false, e) == Ok::<_, ErrorAt>((e, ev.len() as nat)));
}

/// From `pos` on, links with plain names and events that open no link, no list and no
/// top-level heading, and then the start of a list.
pub open spec fn links_then_list(ev: Seq<Token>, pos: nat) -> bool
    decreases ev.len() - pos,
{
    if pos >= ev.len() {
        false
    } else if opens_list(ev[pos as int].event) {
        true
    } else if link_segment(ev, pos as int) {
        links_then_list(ev, pos + 3)
    } else {
        &&& !(ev[pos as int].event is LinkStart)
        &&& !opens_h1(ev[pos as int].event)
        &&& links_then_list(ev, pos + 1)
    }
}

/// A suffix region in which a list follows its links and separators fails, with the error
/// for a list after the numbered part.
pub proof fn law_list_in_suffix_fails(ev: Seq<Token>, pos: nat, acc: Seq<ItemModel>)
    requires
        links_then_list(ev, pos),
    ensures
        affix(ev, pos, false, acc) matches Err(at) && at.kind
            == ParseErrorKind::SuffixFollowedByList,
    decreases ev.len() - pos,
{
    if opens_list(ev[pos as int].event) {
    } else if link_segment(ev, pos as int) {
        lemma_link_segment(ev, pos as int);
        law_list_in_suffix_fails(
            ev,
            pos + 3,
            acc.push(ItemModel::Link(segment_link(ev, pos as int, None))),
        );
    } else if ev[pos as int].event is Rule {
        law_list_in_suffix_fails(ev, pos + 1, acc.push(ItemModel::Separator));
    } else {
        law_list_in_suffix_fails(ev, pos + 1, acc);
    }
}

} // verus!
