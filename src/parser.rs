//! The outline parser: a single pass over markdown events with one event of pushback.
use crate::introduction::{
    introduction_model, item_model, items_model, link_model, opt_string_model, ints, number_model, lemma_items_model_push,
    lemma_items_model_len, lemma_items_model_append, DocItem, Introduction, IntroductionModel,
    ItemModel, Link, LinkModel, SectionNumber,
};
use crate::markdown::{markdown_events, tokenize, MdEvent, TagKind, Token};
use crate::text::{decode_percent_spaces, decode_spaces, locate, location_of};
use vstd::prelude::*;
use vstd::string::{StringExecFns, StringSliceAdditionalSpecFns};

verus! {

/// What is wrong with an outline that cannot be compiled.
#[derive(Debug, Clone, Copy, PartialEq, Eq, Structural)]
pub enum ParseErrorKind {
    /// A list stands after the numbered part of the outline.
    SuffixFollowedByList,
    /// A numbered list item does not start with a link.
    ItemWithoutLink,
}

/// A structural error, with the 1-based line and column at which it was found.
#[derive(Debug, Clone, Copy, PartialEq, Eq, Structural)]
pub struct ParseError {
    pub kind: ParseErrorKind,
    pub line: usize,
    pub column: usize,
}

impl ParseError {
    /// What went wrong, in words.
    pub fn message(&self) -> (r: &'static str)
        ensures
            self.kind is SuffixFollowedByList ==> r@ == "Suffix sections cannot be followed by a list"@,
            self.kind is ItemWithoutLink ==> r@
                == "The link items for nested chapters must only contain a hyperlink"@,
    {
        match self.kind {
            ParseErrorKind::SuffixFollowedByList => "Suffix sections cannot be followed by a list",
            ParseErrorKind::ItemWithoutLink => "The link items for nested chapters must only contain a hyperlink",
        }
    }

    /// The part of the outline that was being read when the error was found.
    pub fn context(&self) -> (r: &'static str)
        ensures
            self.kind is SuffixFollowedByList ==> r@ == "There was an error parsing the suffix sections"@,
            self.kind is ItemWithoutLink ==> r@ == "There was an error parsing the numbered sections"@,
    {
        match self.kind {
            ParseErrorKind::SuffixFollowedByList => "There was an error parsing the suffix sections",
            ParseErrorKind::ItemWithoutLink => "There was an error parsing the numbered sections",
        }
    }
}

/// Where a structural error was found: the index of the offending event, or the number of
/// events when the stream ended first.
pub struct ErrorAt {
    pub index: int,
    pub kind: ParseErrorKind,
}

/// The event starts a list.
pub open spec fn opens_list(e: MdEvent) -> bool {
    e matches MdEvent::Start(TagKind::List(_))
}

/// The event starts a top-level heading.
pub open spec fn opens_h1(e: MdEvent) -> bool {
    e == MdEvent::Start(TagKind::Heading(1))
}

/// The event starts a paragraph.
pub open spec fn opens_paragraph(e: MdEvent) -> bool {
    e == MdEvent::Start(TagKind::Paragraph)
}

/// The event starts a list item.
pub open spec fn opens_item(e: MdEvent) -> bool {
    e == MdEvent::Start(TagKind::Item)
}

/// The event ends a list.
pub open spec fn closes_list(e: MdEvent) -> bool {
    e matches MdEvent::End(TagKind::List(_))
}

/// The kind of element that an event opens, if it opens one.
pub open spec fn opened_kind(e: MdEvent) -> Option<TagKind> {
    match e {
        MdEvent::Start(k) => Some(k),
        MdEvent::LinkStart(_) => Some(TagKind::Link),
        _ => None,
    }
}

/// The text an event contributes to a flattened title or link name.
pub open spec fn event_text(e: MdEvent) -> Seq<char> {
    match e {
        MdEvent::Text(s) => s@,
        MdEvent::SoftBreak => seq![' '],
        _ => Seq::empty(),
    }
}

/// The flattened text of the events from `pos` up to the first `End(end)`, and the position
/// after that end event (or the end of the stream).
pub open spec fn text_until(ev: Seq<Token>, pos: nat, end: TagKind) -> (Seq<char>, nat)
    decreases ev.len() - pos,
{
    if pos >= ev.len() {
        (Seq::empty(), pos)
    } else if ev[pos as int].event == MdEvent::End(end) {
        (Seq::empty(), pos + 1)
    } else {
        let rest = text_until(ev, pos + 1, end);
        (event_text(ev[pos as int].event) + rest.0, rest.1)
    }
}

/// The position after the first `End(end)` at or after `pos` (or the end of the stream).
pub open spec fn skip_past(ev: Seq<Token>, pos: nat, end: TagKind) -> nat
    decreases ev.len() - pos,
{
    if pos >= ev.len() {
        pos
    } else if ev[pos as int].event == MdEvent::End(end) {
        pos + 1
    } else {
        skip_past(ev, pos + 1, end)
    }
}

/// `p` lies after `pos` and within the events: a sub-parse that started at `pos` advanced.
pub open spec fn advances(ev: Seq<Token>, pos: nat, p: nat) -> bool {
    pos < p <= ev.len()
}

/// The location of a link destination: `None` when it is empty, else the destination with
/// `%20` read as a space.
pub open spec fn link_location(dest: Seq<char>) -> Option<Seq<char>> {
    if dest.len() == 0 {
        None
    } else {
        Some(decode_spaces(dest))
    }
}

/// The unnumbered link whose start event stands just before `pos`, and the position after it.
pub open spec fn link_at(ev: Seq<Token>, pos: nat, dest: Seq<char>) -> (LinkModel, nat) {
    let (name, p) = text_until(ev, pos, TagKind::Link);
    (LinkModel { name, location: link_location(dest), number: None, children: Seq::empty() }, p)
}

/// The items of a prefix (`prefix`) or suffix region from `pos` on, after those in `acc`.
pub open spec fn affix(ev: Seq<Token>, pos: nat, prefix: bool, acc: Seq<ItemModel>) -> Result<
    (Seq<ItemModel>, nat),
    ErrorAt,
>
    decreases ev.len() - pos,
{
    if pos >= ev.len() {
        Ok((acc, pos))
    } else {
        let e = ev[pos as int].event;
        if opens_list(e) {
            if prefix {
                Ok((acc, pos))
            } else {
                Err(ErrorAt { index: pos as int, kind: ParseErrorKind::SuffixFollowedByList })
            }
        } else if opens_h1(e) {
            Ok((acc, pos))
        } else if e is LinkStart {
            let (l, p) = link_at(ev, pos + 1, e->LinkStart_0@);
            if advances(ev, pos, p) {
                affix(ev, p, prefix, acc.push(ItemModel::Link(l)))
            } else {
                Ok((acc, p))
            }
        } else if e is Rule {
            affix(ev, pos + 1, prefix, acc.push(ItemModel::Separator))
        } else {
            affix(ev, pos + 1, prefix, acc)
        }
    }
}

/// The numbered link of a list item whose start event stands just before `pos`.
pub open spec fn item_at(ev: Seq<Token>, pos: nat, number: Seq<int>) -> Result<
    (LinkModel, nat),
    ErrorAt,
>
    decreases ev.len() - pos,
{
    if pos >= ev.len() {
        Err(ErrorAt { index: pos as int, kind: ParseErrorKind::ItemWithoutLink })
    } else {
        let e = ev[pos as int].event;
        if opens_paragraph(e) {
            item_at(ev, pos + 1, number)
        } else if e is LinkStart {
            let (l, p) = link_at(ev, pos + 1, e->LinkStart_0@);
            Ok(
                (
                    LinkModel {
                        name: l.name,
                        location: l.location,
                        number: Some(number),
                        children: l.children,
                    },
                    p,
                ),
            )
        } else {
            Err(ErrorAt { index: pos as int, kind: ParseErrorKind::ItemWithoutLink })
        }
    }
}

/// The section number of an item (empty for items without one).
pub open spec fn item_number(it: ItemModel) -> Seq<int> {
    match it {
        ItemModel::Link(l) => match l.number {
            Some(n) => n,
            None => Seq::empty(),
        },
        _ => Seq::empty(),
    }
}

/// The item with its nested items replaced by `children` (links only).
pub open spec fn with_children(it: ItemModel, children: Seq<ItemModel>) -> ItemModel {
    match it {
        ItemModel::Link(l) => ItemModel::Link(
            LinkModel { name: l.name, location: l.location, number: l.number, children },
        ),
        _ => it,
    }
}

/// The chapters of a list (and of the lists nested in it) from `pos` on, after those in `acc`;
/// the k-th chapter of the list (from 1) is numbered `parent` followed by `base + k`.
pub open spec fn nested(
    ev: Seq<Token>,
    pos: nat,
    parent: Seq<int>,
    base: int,
    acc: Seq<ItemModel>,
) -> Result<(Seq<ItemModel>, nat), ErrorAt>
    decreases ev.len() - pos,
{
    if pos >= ev.len() {
        Ok((acc, pos))
    } else {
        let e = ev[pos as int].event;
        if opens_item(e) {
            match item_at(ev, pos + 1, parent.push(base + acc.len() + 1)) {
                Err(x) => Err(x),
                Ok((l, p)) => if advances(ev, pos, p) {
                    nested(ev, p, parent, base, acc.push(ItemModel::Link(l)))
                } else {
                    Ok((acc, p))
                },
            }
        } else if opens_list(e) {
            if acc.len() == 0 {
                nested(ev, pos + 1, parent, base, acc)
            } else {
                match nested(ev, pos + 1, item_number(acc.last()), 0, Seq::empty()) {
                    Err(x) => Err(x),
                    Ok((subs, p)) => if advances(ev, pos, p) {
                        nested(
                            ev,
                            p,
                            parent,
                            base,
                            acc.drop_last().push(with_children(acc.last(), subs)),
                        )
                    } else {
                        Ok((acc, p))
                    },
                }
            }
        } else if closes_list(e) {
            Ok((acc, pos + 1))
        } else {
            nested(ev, pos + 1, parent, base, acc)
        }
    }
}

/// One run of numbered items from `pos` on, after those in `acc`; `count` top-level chapters
/// were numbered before. Yields the items, the position after them and the new count.
pub open spec fn numbered(
    ev: Seq<Token>,
    pos: nat,
    count: int,
    first: bool,
    acc: Seq<ItemModel>,
) -> Result<(Seq<ItemModel>, nat, int), ErrorAt>
    decreases ev.len() - pos,
{
    if pos >= ev.len() {
        Ok((acc, pos, count))
    } else {
        let e = ev[pos as int].event;
        if opens_paragraph(e) {
            if first {
                numbered(ev, pos + 1, count, false, acc)
            } else {
                Ok((acc, pos, count))
            }
        } else if opens_h1(e) {
            Ok((acc, pos, count))
        } else if opens_list(e) {
            match nested(ev, pos, Seq::empty(), count, Seq::empty()) {
                Err(x) => Err(x),
                Ok((items, p)) => if advances(ev, pos, p) {
                    numbered(ev, p, count + items.len(), false, acc + items)
                } else {
                    Ok((acc + items, p, count + items.len()))
                },
            }
        } else if opened_kind(e) is Some {
            let p = skip_past(ev, pos + 1, opened_kind(e)->Some_0);
            if advances(ev, pos, p) {
                numbered(ev, p, count, false, acc)
            } else {
                Ok((acc, p, count))
            }
        } else if e is Rule {
            numbered(ev, pos + 1, count, false, acc.push(ItemModel::Separator))
        } else {
            numbered(ev, pos + 1, count, false, acc)
        }
    }
}

/// The numbered region from `pos` on: runs of chapters, each optionally under a part title,
/// numbered continuously; `count` top-level chapters were numbered before.
pub open spec fn parts(ev: Seq<Token>, pos: nat, count: int, acc: Seq<ItemModel>) -> Result<
    (Seq<ItemModel>, nat),
    ErrorAt,
>
    decreases ev.len() - pos,
{
    if pos >= ev.len() {
        Ok((acc, pos))
    } else {
        let e = ev[pos as int].event;
        if opens_paragraph(e) {
            Ok((acc, pos))
        } else if opens_h1(e) {
            let (t, p) = text_until(ev, pos + 1, TagKind::Heading(1));
            match numbered(ev, p, count, true, Seq::empty()) {
                Err(x) => Err(x),
                Ok((items, q, c)) => if advances(ev, pos, q) {
                    parts(ev, q, c, acc.push(ItemModel::PartTitle(t)) + items)
                } else {
                    Ok((acc.push(ItemModel::PartTitle(t)) + items, q))
                },
            }
        } else {
            match numbered(ev, pos, count, true, Seq::empty()) {
                Err(x) => Err(x),
                Ok((items, q, c)) => if advances(ev, pos, q) {
                    parts(ev, q, c, acc + items)
                } else {
                    Ok((acc + items, q))
                },
            }
        }
    }
}

/// The title: the text of a leading top-level heading, and the position after it.
pub open spec fn title_of(ev: Seq<Token>) -> (Option<Seq<char>>, nat) {
    if ev.len() > 0 && opens_h1(ev[0].event) {
        let (t, p) = text_until(ev, 1, TagKind::Heading(1));
        (Some(t), p)
    } else {
        (None, 0)
    }
}

/// The outline that an event stream describes: title, then prefix, numbered and suffix
/// regions, read left to right.
pub open spec fn outline(ev: Seq<Token>) -> Result<IntroductionModel, ErrorAt> {
    let (title, p0) = title_of(ev);
    match affix(ev, p0, true, Seq::empty()) {
        Err(x) => Err(x),
        Ok((prefix, p1)) => match parts(ev, p1, 0, Seq::empty()) {
            Err(x) => Err(x),
            Ok((numbered_sections, p2)) => match affix(ev, p2, false, Seq::empty()) {
                Err(x) => Err(x),
                Ok((suffix, _)) => Ok(
                    IntroductionModel {
                        title,
                        prefix_sections: prefix,
                        numbered_sections,
                        suffix_sections: suffix,
                    },
                ),
            },
        },
    }
}

/// The source offset reported for an error at event `index`: that event's offset, or the last
/// event's when the stream ended first.
pub open spec fn offset_at(ev: Seq<Token>, index: int) -> int {
    let k = if index < ev.len() { index } else { ev.len() - 1 };
    if 0 <= k {
        ev[k].offset as int
    } else {
        0
    }
}

/// `e` reports the error `at` of the events `ev` of the source with bytes `b`.
pub open spec fn reports(e: ParseError, at: ErrorAt, ev: Seq<Token>, b: Seq<u8>) -> bool {
    &&& e.kind == at.kind
    &&& (e.line as int, e.column as int) == location_of(b, offset_at(ev, at.index))
}

/// `r` is the outcome `m` of compiling the events `ev` of the source with bytes `b`.
pub open spec fn outcome(
    r: Result<Introduction, ParseError>,
    m: Result<IntroductionModel, ErrorAt>,
    ev: Seq<Token>,
    b: Seq<u8>,
) -> bool {
    match m {
        Ok(model) => match r {
            Ok(i) => introduction_model(i) == model,
            Err(_) => false,
        },
        Err(at) => match r {
            Ok(_) => false,
            Err(e) => reports(e, at, ev, b),
        },
    }
}

proof fn lemma_text_until_bounds(ev: Seq<Token>, pos: nat, end: TagKind)
    requires
        pos <= ev.len(),
    ensures
        pos <= text_until(ev, pos, end).1 <= ev.len(),
        pos < ev.len() ==> pos < text_until(ev, pos, end).1,
    decreases ev.len() - pos,
{
    if pos < ev.len() && ev[pos as int].event != MdEvent::End(end) {
        lemma_text_until_bounds(ev, pos + 1, end);
    }
}

proof fn lemma_skip_past_bounds(ev: Seq<Token>, pos: nat, end: TagKind)
    requires
        pos <= ev.len(),
    ensures
        pos <= skip_past(ev, pos, end) <= ev.len(),
        pos < ev.len() ==> pos < skip_past(ev, pos, end),
    decreases ev.len() - pos,
{
    if pos < ev.len() && ev[pos as int].event != MdEvent::End(end) {
        lemma_skip_past_bounds(ev, pos + 1, end);
    }
}

/// `parent` followed by `k`.
fn extend_number(parent: &Vec<usize>, k: usize) -> (r: Vec<usize>)
    ensures
        r@ == parent@.push(k),
        ints(r@) == ints(parent@).push(k as int),
{
    let mut r: Vec<usize> = Vec::new();
    let mut i: usize = 0;
    while i < parent.len()
        invariant
            i <= parent.len(),
            r@ == parent@.take(i as int),
        decreases parent.len() - i,
    {
        r.push(parent[i]);
        i = i + 1;
        assert(r@ =~= parent@.take(i as int));
    }
    assert(parent@.take(i as int) =~= parent@);
    r.push(k);
    assert(ints(r@) =~= ints(parent@).push(k as int));
    r
}

/// A copy of the components of a link's section number (none when it has none).
fn number_components(number: &Option<SectionNumber>) -> (r: Vec<usize>)
    ensures
        ints(r@) == match *number {
            Some(n) => number_model(n),
            None => Seq::<int>::empty(),
        },
{
    match number {
        Some(n) => {
            let mut r: Vec<usize> = Vec::new();
            let mut i: usize = 0;
            while i < n.0.len()
                invariant
                    i <= n.0.len(),
                    r@ == n.0@.take(i as int),
                decreases n.0.len() - i,
            {
                r.push(n.0[i]);
                i = i + 1;
                assert(r@ =~= n.0@.take(i as int));
            }
            assert(n.0@.take(i as int) =~= n.0@);
            assert(ints(r@) =~= number_model(*n));
            r
        },
        None => {
            let r: Vec<usize> = Vec::new();
            assert(ints(r@) =~= Seq::<int>::empty());
            r
        },
    }
}

fn is_list_start(e: &MdEvent) -> (r: bool)
    ensures
        r == opens_list(*e),
{
    match e {
        MdEvent::Start(TagKind::List(_)) => true,
        _ => false,
    }
}

fn is_h1_start(e: &MdEvent) -> (r: bool)
    ensures
        r == opens_h1(*e),
{
    match e {
        MdEvent::Start(TagKind::Heading(level)) => *level == 1,
        _ => false,
    }
}

fn is_paragraph_start(e: &MdEvent) -> (r: bool)
    ensures
        r == opens_paragraph(*e),
{
    match e {
        MdEvent::Start(TagKind::Paragraph) => true,
        _ => false,
    }
}

fn is_item_start(e: &MdEvent) -> (r: bool)
    ensures
        r == opens_item(*e),
{
    match e {
        MdEvent::Start(TagKind::Item) => true,
        _ => false,
    }
}

fn is_list_end(e: &MdEvent) -> (r: bool)
    ensures
        r == closes_list(*e),
{
    match e {
        MdEvent::End(TagKind::List(_)) => true,
        _ => false,
    }
}

fn is_rule(e: &MdEvent) -> (r: bool)
    ensures
        r == (*e is Rule),
{
    match e {
        MdEvent::Rule => true,
        _ => false,
    }
}

fn is_end_of(e: &MdEvent, kind: TagKind) -> (r: bool)
    ensures
        r == (*e == MdEvent::End(kind)),
{
    match e {
        MdEvent::End(k) => *k == kind,
        _ => false,
    }
}

fn opened(e: &MdEvent) -> (r: Option<TagKind>)
    ensures
        r == opened_kind(*e),
{
    match e {
        MdEvent::Start(k) => Some(*k),
        MdEvent::LinkStart(_) => Some(TagKind::Link),
        _ => None,
    }
}

fn append_event_text(acc: &mut String, e: &MdEvent)
    ensures
        final(acc)@ == old(acc)@ + event_text(*e),
{
    match e {
        MdEvent::Text(t) => {
            let piece = t.as_str();
            acc.append(piece);
        },
        MdEvent::SoftBreak => {
            proof {
                reveal_strlit(" ");
            }
            acc.append(" ");
        },
        _ => {
            assert(old(acc)@ + event_text(*e) =~= old(acc)@);
        },
    }
}

/// The location that a link destination names: `None` when it is empty, else the
/// destination with each `%20` decoded to a space.
pub fn link_destination(dest: &String) -> (r: Option<String>)
    ensures
        opt_string_model(r) == link_location(dest@),
{
    if dest.as_str().is_empty() {
        None
    } else {
        Some(decode_percent_spaces(dest.as_str()))
    }
}

/// A stream of markdown events read one at a time, with room to push back one event.
pub struct EventCursor {
    events: Vec<Token>,
    pos: usize,
    pending_back: bool,
}

impl EventCursor {
    /// The events of the stream.
    pub closed spec fn events(&self) -> Seq<Token> {
        self.events@
    }

    /// How many events have been consumed.
    pub closed spec fn pos(&self) -> nat {
        self.pos as nat
    }

    /// An event was pushed back and not read again yet.
    pub closed spec fn pending_back(&self) -> bool {
        self.pending_back
    }

    pub closed spec fn wf(&self) -> bool {
        self.pos <= self.events@.len()
    }

    /// A cursor at the start of `events`.
    pub fn new(events: Vec<Token>) -> (r: EventCursor)
        ensures
            r.wf(),
            r.events() == events@,
            r.pos() == 0,
            !r.pending_back(),
    {
        EventCursor { events, pos: 0, pending_back: false }
    }

    /// Consumes the next event; `false` at the end of the stream.
    pub fn next(&mut self) -> (r: bool)
        requires
            old(self).wf(),
        ensures
            final(self).wf(),
            final(self).events() == old(self).events(),
            r == (old(self).pos() < old(self).events().len()),
            r ==> final(self).pos() == old(self).pos() + 1 && !final(self).pending_back(),
            !r ==> final(self).pos() == old(self).pos() && final(self).pending_back()
                == old(self).pending_back(),
    {
        if self.pos < self.events.len() {
            self.pos = self.pos + 1;
            self.pending_back = false;
            true
        } else {
            false
        }
    }

    /// The event consumed last.
    pub fn current(&self) -> (r: &MdEvent)
        requires
            self.wf(),
            0 < self.pos(),
        ensures
            *r == self.events()[self.pos() - 1].event,
    {
        &self.events[self.pos - 1].event
    }

    /// Pushes the event consumed last back, so that `next` reads it again; at most one
    /// event can wait so.
    pub fn back(&mut self)
        requires
            old(self).wf(),
            0 < old(self).pos(),
            !old(self).pending_back(),
        ensures
            final(self).wf(),
            final(self).events() == old(self).events(),
            final(self).pos() == old(self).pos() - 1,
            final(self).pending_back(),
    {
        self.pos = self.pos - 1;
        self.pending_back = true;
    }

    /// The 1-based line and column in `src` of the event consumed last (of the start of
    /// `src` before any).
    pub fn current_location(&self, src: &str) -> (r: (usize, usize))
        requires
            self.wf(),
            src.spec_bytes().len() < usize::MAX,
        ensures
            (r.0 as int, r.1 as int) == location_of(
                src.spec_bytes(),
                offset_at(self.events(), self.pos() - 1),
            ),
    {
        let offset = if self.pos > 0 {
            self.events[self.pos - 1].offset
        } else {
            0
        };
        locate(src, offset)
    }
}

/// `r` is the outcome `s` of reading items, with the cursor left at `pos`.
pub open spec fn items_outcome(
    r: Result<Vec<DocItem>, ParseError>,
    s: Result<(Seq<ItemModel>, nat), ErrorAt>,
    pos: nat,
    ev: Seq<Token>,
    b: Seq<u8>,
) -> bool {
    match s {
        Ok((m, p)) => match r {
            Ok(v) => items_model(v@) == m && pos == p,
            Err(_) => false,
        },
        Err(at) => match r {
            Ok(_) => false,
            Err(e) => reports(e, at, ev, b),
        },
    }
}

/// Reads an outline from the events of its source text.
struct IntroductionParser<'a> {
    src: &'a str,
    cursor: EventCursor,
}

impl<'a> IntroductionParser<'a> {
    spec fn ev(&self) -> Seq<Token> {
        self.cursor.events()
    }

    spec fn pos(&self) -> nat {
        self.cursor.pos()
    }

    spec fn wf(&self) -> bool {
        self.cursor.wf() && self.src.spec_bytes().len() < usize::MAX
    }

    fn new(src: &'a str, events: Vec<Token>) -> (r: IntroductionParser<'a>)
        requires
            src.spec_bytes().len() < usize::MAX,
        ensures
            r.wf(),
            r.src == src,
            r.ev() == events@,
            r.pos() == 0,
    {
        IntroductionParser { src, cursor: EventCursor::new(events) }
    }

    /// An error of the given kind at the event consumed last.
    fn parse_error(&self, kind: ParseErrorKind) -> (r: ParseError)
        requires
            self.wf(),
        ensures
            r.kind == kind,
            (r.line as int, r.column as int) == location_of(
                self.src.spec_bytes(),
                offset_at(self.ev(), self.pos() - 1),
            ),
    {
        let (line, column) = self.cursor.current_location(self.src);
        ParseError { kind, line, column }
    }

    /// Consumes events up to and including the first `End(end)`, and returns their text.
    fn collect_text(&mut self, end: TagKind) -> (r: String)
        requires
            old(self).wf(),
        ensures
            final(self).wf(),
            final(self).ev() == old(self).ev(),
            final(self).src == old(self).src,
            (r@, final(self).pos()) == text_until(old(self).ev(), old(self).pos(), end),
    {
        let ghost ev = self.ev();
        let ghost start = self.pos();
        let mut acc = String::new();
        loop
            invariant
                self.wf(),
                ev == old(self).ev(),
                start == old(self).pos(),
                self.ev() == ev,
                self.src == old(self).src,
                (acc@ + text_until(ev, self.pos(), end).0, text_until(ev, self.pos(), end).1)
                    == text_until(ev, start, end),
            decreases ev.len() - self.pos(),
        {
            let ghost p0 = self.pos();
            let ghost a0 = acc@;
            if !self.cursor.next() {
                assert(acc@ + Seq::<char>::empty() =~= acc@);
                return acc;
            }
            let e = self.cursor.current();
            if is_end_of(e, end) {
                assert(acc@ + Seq::<char>::empty() =~= acc@);
                return acc;
            }
            append_event_text(&mut acc, e);
            let ghost t = event_text(ev[p0 as int].event);
            let ghost rest = text_until(ev, p0 + 1, end).0;
            assert(a0 + (t + rest) =~= (a0 + t) + rest);
        }
    }

    /// Consumes events up to and including the first `End(end)`.
    fn skip_to_end(&mut self, end: TagKind)
        requires
            old(self).wf(),
        ensures
            final(self).wf(),
            final(self).ev() == old(self).ev(),
            final(self).src == old(self).src,
            final(self).pos() == skip_past(old(self).ev(), old(self).pos(), end),
    {
        let ghost ev = self.ev();
        let ghost start = self.pos();
        loop
            invariant
                self.wf(),
                ev == old(self).ev(),
                start == old(self).pos(),
                self.ev() == ev,
                self.src == old(self).src,
                skip_past(ev, self.pos(), end) == skip_past(ev, start, end),
            decreases ev.len() - self.pos(),
        {
            if !self.cursor.next() {
                return;
            }
            if is_end_of(self.cursor.current(), end) {
                return;
            }
        }
    }

    /// Reads the name of a link whose start was just consumed.
    fn parse_link(&mut self, location: Option<String>) -> (r: Link)
        requires
            old(self).wf(),
        ensures
            final(self).wf(),
            final(self).ev() == old(self).ev(),
            final(self).src == old(self).src,
            link_model(r) == (LinkModel {
                name: text_until(old(self).ev(), old(self).pos(), TagKind::Link).0,
                location: opt_string_model(location),
                number: None,
                children: Seq::empty(),
            }),
            final(self).pos() == text_until(old(self).ev(), old(self).pos(), TagKind::Link).1,
    {
        let name = self.collect_text(TagKind::Link);
        let r = Link { name, location, number: None, nst_itms: Vec::new() };
        assert(r.nst_itms@ =~= Seq::<DocItem>::empty());
        r
    }

    /// Reads a leading top-level heading as the title.
    fn parse_title(&mut self) -> (r: Option<String>)
        requires
            old(self).wf(),
            old(self).pos() == 0,
        ensures
            final(self).wf(),
            final(self).ev() == old(self).ev(),
            final(self).src == old(self).src,
            (opt_string_model(r), final(self).pos()) == title_of(old(self).ev()),
    {
        if !self.cursor.next() {
            return None;
        }
        if is_h1_start(self.cursor.current()) {
            Some(self.collect_text(TagKind::Heading(1)))
        } else {
            self.cursor.back();
            None
        }
    }

    /// Reads a list item whose start was just consumed as the chapter numbered `parent`
    /// followed by `k`.
    fn parse_nested_item(&mut self, parent: &Vec<usize>, k: usize) -> (r: Result<Link, ParseError>)
        requires
            old(self).wf(),
        ensures
            final(self).wf(),
            final(self).ev() == old(self).ev(),
            final(self).src == old(self).src,
            old(self).pos() <= final(self).pos(),
            match item_at(old(self).ev(), old(self).pos(), ints(parent@).push(k as int)) {
                Ok((m, p)) => match r {
                    Ok(l) => link_model(l) == m && final(self).pos() == p,
                    Err(_) => false,
                },
                Err(at) => match r {
                    Ok(_) => false,
                    Err(e) => reports(e, at, old(self).ev(), old(self).src.spec_bytes()),
                },
            },
    {
        let ghost ev = self.ev();
        let ghost start = self.pos();
        let ghost number = ints(parent@).push(k as int);
        loop
            invariant
                self.wf(),
                ev == old(self).ev(),
                start == old(self).pos(),
                number == ints(parent@).push(k as int),
                self.ev() == ev,
                self.src == old(self).src,
                start <= self.pos(),
                item_at(ev, self.pos(), number) == item_at(ev, start, number),
            decreases ev.len() - self.pos(),
        {
            let ghost p0 = self.pos();
            if !self.cursor.next() {
                return Err(self.parse_error(ParseErrorKind::ItemWithoutLink));
            }
            let e = self.cursor.current();
            if !is_paragraph_start(e) {
                match e {
                    MdEvent::LinkStart(dest) => {
                        let location = link_destination(dest);
                        let mut link = self.parse_link(location);
                        proof {
                            lemma_text_until_bounds(ev, p0 + 1, TagKind::Link);
                        }
                        link.number = Some(SectionNumber(extend_number(parent, k)));
                        return Ok(link);
                    },
                    _ => {
                        return Err(self.parse_error(ParseErrorKind::ItemWithoutLink));
                    },
                }
            }
        }
    }

    /// Reads a list (with the lists nested in it) whose start is the next event; its k-th
    /// chapter is numbered `parent` followed by `base + k`.
    fn parse_nested_numbered(&mut self, parent: &Vec<usize>, base: usize) -> (r: Result<
        Vec<DocItem>,
        ParseError,
    >)
        requires
            old(self).wf(),
            base <= old(self).pos(),
        ensures
            final(self).wf(),
            final(self).ev() == old(self).ev(),
            final(self).src == old(self).src,
            old(self).pos() <= final(self).pos(),
            old(self).pos() < old(self).ev().len() ==> old(self).pos() < final(self).pos(),
            r is Ok ==> base + r->Ok_0@.len() <= final(self).pos(),
            items_outcome(
                r,
                nested(old(self).ev(), old(self).pos(), ints(parent@), base as int, Seq::empty()),
                final(self).pos(),
                old(self).ev(),
                old(self).src.spec_bytes(),
            ),
        decreases old(self).ev().len() - old(self).pos(),
    {
        let ghost ev = self.ev();
        let ghost start = self.pos();
        let mut items: Vec<DocItem> = Vec::new();
        loop
            invariant
                self.wf(),
                ev == old(self).ev(),
                start == old(self).pos(),
                self.ev() == ev,
                self.src == old(self).src,
                start <= self.pos(),
                base + items@.len() <= self.pos(),
                nested(ev, self.pos(), ints(parent@), base as int, items_model(items@)) == nested(
                    ev,
                    start,
                    ints(parent@),
                    base as int,
                    Seq::empty(),
                ),
            decreases ev.len() - self.pos(),
        {
            let ghost p0 = self.pos();
            proof {
                lemma_items_model_len(items@);
            }
            if !self.cursor.next() {
                return Ok(items);
            }
            let e = self.cursor.current();
            if is_item_start(e) {
                let k = base + items.len() + 1;
                match self.parse_nested_item(parent, k) {
                    Err(x) => {
                        return Err(x);
                    },
                    Ok(link) => {
                        proof {
                            lemma_items_model_push(items@, DocItem::Link(link));
                        }
                        items.push(DocItem::Link(link));
                    },
                }
            } else if is_list_start(e) {
                if items.len() > 0 {
                    let ghost before = items@;
                    let last = items.pop().unwrap();
                    proof {
                        assert(items@.push(last) =~= before);
                        lemma_items_model_push(items@, last);
                    }
                    let sub_parent = match &last {
                        DocItem::Link(l) => number_components(&l.number),
                        _ => Vec::new(),
                    };
                    assert(ints(sub_parent@) == item_number(item_model(last))) by {
                        if !(last is Link) {
                            assert(ints(sub_parent@) =~= Seq::<int>::empty());
                        }
                    }
                    match self.parse_nested_numbered(&sub_parent, 0) {
                        Err(x) => {
                            return Err(x);
                        },
                        Ok(subs) => {
                            let ghost subs_model = items_model(subs@);
                            let updated = match last {
                                DocItem::Link(l) => {
                                    let mut l = l;
                                    l.nst_itms = subs;
                                    DocItem::Link(l)
                                },
                                other => other,
                            };
                            assert(item_model(updated) == with_children(
                                item_model(last),
                                subs_model,
                            ));
                            proof {
                                lemma_items_model_push(items@, updated);
                            }
                            assert(items_model(before).last() == item_model(last));
                            assert(items_model(before).drop_last() == items_model(items@));
                            items.push(updated);
                        },
                    }
                }
            } else if is_list_end(e) {
                return Ok(items);
            }
        }
    }

    /// Reads one run of numbered items; `root_items` counts the top-level chapters numbered
    /// so far, across runs.
    fn parse_numbered(&mut self, root_items: &mut usize) -> (r: Result<Vec<DocItem>, ParseError>)
        requires
            old(self).wf(),
            *old(root_items) <= old(self).pos(),
        ensures
            final(self).wf(),
            final(self).ev() == old(self).ev(),
            final(self).src == old(self).src,
            old(self).pos() <= final(self).pos(),
            old(self).pos() < old(self).ev().len() && !opens_h1(
                old(self).ev()[old(self).pos() as int].event,
            ) ==> old(self).pos() < final(self).pos(),
            *final(root_items) <= final(self).pos(),
            match numbered(
                old(self).ev(),
                old(self).pos(),
                *old(root_items) as int,
                true,
                Seq::empty(),
            ) {
                Ok((m, p, c)) => match r {
                    Ok(v) => items_model(v@) == m && final(self).pos() == p && *final(root_items)
                        == c,
                    Err(_) => false,
                },
                Err(at) => match r {
                    Ok(_) => false,
                    Err(e) => reports(e, at, old(self).ev(), old(self).src.spec_bytes()),
                },
            },
    {
        let ghost ev = self.ev();
        let ghost start = self.pos();
        let ghost count0 = *root_items;
        let mut items: Vec<DocItem> = Vec::new();
        let mut first = true;
        loop
            invariant
                self.wf(),
                ev == old(self).ev(),
                start == old(self).pos(),
                count0 == *old(root_items),
                self.ev() == ev,
                self.src == old(self).src,
                start <= self.pos(),
                first ==> self.pos() == start,
                !first ==> start < self.pos(),
                *root_items <= self.pos(),
                numbered(ev, self.pos(), *root_items as int, first, items_model(items@))
                    == numbered(ev, start, count0 as int, true, Seq::empty()),
            decreases ev.len() - self.pos(),
        {
            let ghost p0 = self.pos();
            if !self.cursor.next() {
                return Ok(items);
            }
            let e = self.cursor.current();
            if is_paragraph_start(e) {
                if !first {
                    self.cursor.back();
                    return Ok(items);
                }
            } else if is_h1_start(e) {
                self.cursor.back();
                return Ok(items);
            } else if is_list_start(e) {
                self.cursor.back();
                let empty: Vec<usize> = Vec::new();
                assert(ints(empty@) =~= Seq::<int>::empty());
                match self.parse_nested_numbered(&empty, *root_items) {
                    Err(x) => {
                        return Err(x);
                    },
                    Ok(bunch) => {
                        let mut bunch = bunch;
                        proof {
                            lemma_items_model_len(bunch@);
                            lemma_items_model_append(items@, bunch@);
                        }
                        *root_items = *root_items + bunch.len();
                        items.append(&mut bunch);
                        assert(advances(ev, p0, self.pos()));
                    },
                }
            } else {
                match opened(e) {
                    Some(kind) => {
                        self.skip_to_end(kind);
                        proof {
                            lemma_skip_past_bounds(ev, p0 + 1, kind);
                        }
                    },
                    None => {
                        if is_rule(e) {
                            proof {
                                lemma_items_model_push(items@, DocItem::Separator);
                            }
                            items.push(DocItem::Separator);
                        }
                    },
                }
            }
            first = false;
        }
    }

    /// Reads the numbered region: runs of chapters, each optionally under a part title, with
    /// numbering continued from one run to the next.
    fn parse_parts(&mut self) -> (r: Result<Vec<DocItem>, ParseError>)
        requires
            old(self).wf(),
        ensures
            final(self).wf(),
            final(self).ev() == old(self).ev(),
            final(self).src == old(self).src,
            items_outcome(
                r,
                parts(old(self).ev(), old(self).pos(), 0, Seq::empty()),
                final(self).pos(),
                old(self).ev(),
                old(self).src.spec_bytes(),
            ),
    {
        let ghost ev = self.ev();
        let ghost start = self.pos();
        let mut sections: Vec<DocItem> = Vec::new();
        let mut root_items: usize = 0;
        loop
            invariant
                self.wf(),
                ev == old(self).ev(),
                start == old(self).pos(),
                self.ev() == ev,
                self.src == old(self).src,
                root_items <= self.pos(),
                parts(ev, self.pos(), root_items as int, items_model(sections@)) == parts(
                    ev,
                    start,
                    0,
                    Seq::empty(),
                ),
            decreases ev.len() - self.pos(),
        {
            let ghost p0 = self.pos();
            if !self.cursor.next() {
                return Ok(sections);
            }
            let e = self.cursor.current();
            if is_paragraph_start(e) {
                self.cursor.back();
                return Ok(sections);
            }
            let title = if is_h1_start(e) {
                let t = self.collect_text(TagKind::Heading(1));
                proof {
                    lemma_text_until_bounds(ev, p0 + 1, TagKind::Heading(1));
                }
                Some(t)
            } else {
                self.cursor.back();
                None
            };
            match self.parse_numbered(&mut root_items) {
                Err(x) => {
                    return Err(x);
                },
                Ok(items) => {
                    let mut items = items;
                    match title {
                        Some(t) => {
                            proof {
                                lemma_items_model_push(sections@, DocItem::PartTitle(t));
                            }
                            sections.push(DocItem::PartTitle(t));
                        },
                        None => {},
                    }
                    proof {
                        lemma_items_model_append(sections@, items@);
                    }
                    sections.append(&mut items);
                    assert(advances(ev, p0, self.pos()));
                },
            }
        }
    }

    /// Reads the whole outline: title, prefix, numbered and suffix regions.
    fn parse(&mut self) -> (r: Result<Introduction, ParseError>)
        requires
            old(self).wf(),
            old(self).pos() == 0,
        ensures
            outcome(r, outline(old(self).ev()), old(self).ev(), old(self).src.spec_bytes()),
    {
        let title = self.parse_title();
        let prefix_sections = match self.parse_affix(true) {
            Ok(items) => items,
            Err(e) => {
                return Err(e);
            },
        };
        let numbered_sections = match self.parse_parts() {
            Ok(items) => items,
            Err(e) => {
                return Err(e);
            },
        };
        let suffix_sections = match self.parse_affix(false) {
            Ok(items) => items,
            Err(e) => {
                return Err(e);
            },
        };
        Ok(Introduction { title, prefix_sections, numbered_sections, suffix_sections })
    }

    /// Reads the prefix region (`prefix`) or the suffix region.
    fn parse_affix(&mut self, prefix: bool) -> (r: Result<Vec<DocItem>, ParseError>)
        requires
            old(self).wf(),
        ensures
            final(self).wf(),
            final(self).ev() == old(self).ev(),
            final(self).src == old(self).src,
            old(self).pos() <= final(self).pos(),
            items_outcome(
                r,
                affix(old(self).ev(), old(self).pos(), prefix, Seq::empty()),
                final(self).pos(),
                old(self).ev(),
                old(self).src.spec_bytes(),
            ),
    {
        let ghost ev = self.ev();
        let ghost start = self.pos();
        let mut items: Vec<DocItem> = Vec::new();
        loop
            invariant
                self.wf(),
                ev == old(self).ev(),
                start == old(self).pos(),
                self.ev() == ev,
                self.src == old(self).src,
                start <= self.pos(),
                affix(ev, self.pos(), prefix, items_model(items@)) == affix(
                    ev,
                    start,
                    prefix,
                    Seq::empty(),
                ),
            decreases ev.len() - self.pos(),
        {
            let ghost p0 = self.pos();
            if !self.cursor.next() {
                return Ok(items);
            }
            let e = self.cursor.current();
            if is_list_start(e) {
                if prefix {
                    self.cursor.back();
                    return Ok(items);
                } else {
                    return Err(self.parse_error(ParseErrorKind::SuffixFollowedByList));
                }
            } else if is_h1_start(e) {
                self.cursor.back();
                return Ok(items);
            }
            match e {
                MdEvent::LinkStart(dest) => {
                    let location = link_destination(dest);
                    let link = self.parse_link(location);
                    proof {
                        lemma_text_until_bounds(ev, p0 + 1, TagKind::Link);
                        lemma_items_model_push(items@, DocItem::Link(link));
                    }
                    items.push(DocItem::Link(link));
                },
                MdEvent::Rule => {
                    proof {
                        lemma_items_model_push(items@, DocItem::Separator);
                    }
                    items.push(DocItem::Separator);
                },
                _ => {},
            }
        }
    }
}

/// Compiles the outline written in the markdown text `introduction`.
pub fn parse_introduction(introduction: &str) -> (r: Result<Introduction, ParseError>)
    requires
        introduction.spec_bytes().len() < usize::MAX,
    ensures
        outcome(
            r,
            outline(markdown_events(introduction@)),
            markdown_events(introduction@),
            introduction.spec_bytes(),
        ),
{
    let events = tokenize(introduction);
    parse_events(introduction, events)
}

/// Compiles the outline that `events`, the markdown events of the text `src`, describe;
/// error locations are reported in `src`.
pub fn parse_events(src: &str, events: Vec<Token>) -> (r: Result<Introduction, ParseError>)
    requires
        src.spec_bytes().len() < usize::MAX,
    ensures
        outcome(r, outline(events@), events@, src.spec_bytes()),
{
    let mut parser = IntroductionParser::new(src, events);
    parser.parse()
}

} // verus!
