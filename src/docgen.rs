//! The book container: the compiled outline tree, read in pre-order or rewritten in place.
use crate::introduction::{
    introduction_model, item_model, items_model, lemma_items_model_append, DocItem, Introduction, ItemModel,
    LinkModel,
};
use crate::parser::{outline, parse_introduction, ParseError};
use crate::markdown::markdown_events;
use vstd::prelude::*;
use vstd::string::StringSliceAdditionalSpecFns;

verus! {

/// Rewrites one item of the tree at a time; `rewrite` says what it makes of an item.
pub trait DocItemVisitor {
    spec fn rewrite(&self, item: ItemModel) -> ItemModel;

    fn visit(&self, item: DocItem) -> (r: DocItem)
        ensures
            item_model(r) == self.rewrite(item_model(item)),
    ;
}

/// The visitor that leaves every item as it is.
pub struct KeepItems;

impl DocItemVisitor for KeepItems {
    open spec fn rewrite(&self, item: ItemModel) -> ItemModel {
        item
    }

    fn visit(&self, item: DocItem) -> (r: DocItem) {
        item
    }
}

/// What a visitor makes of a sequence of items: each item after its nested items.
pub open spec fn rewrite_all<V: DocItemVisitor>(v: &V, s: Seq<ItemModel>) -> Seq<ItemModel>
    decreases s,
{
    if s.len() == 0 {
        Seq::empty()
    } else {
        rewrite_all(v, s.drop_last()).push(rewrite_item(v, s.last()))
    }
}

/// What a visitor makes of one item: its nested items are rewritten first.
pub open spec fn rewrite_item<V: DocItemVisitor>(v: &V, it: ItemModel) -> ItemModel
    decreases it,
{
    match it {
        ItemModel::Link(l) => v.rewrite(
            ItemModel::Link(
                LinkModel {
                    name: l.name,
                    location: l.location,
                    number: l.number,
                    children: rewrite_all(v, l.children),
                },
            ),
        ),
        _ => v.rewrite(it),
    }
}

/// The items of a tree in pre-order: each item, then the items nested in it.
pub open spec fn preorder(s: Seq<DocItem>) -> Seq<DocItem>
    decreases s,
{
    if s.len() == 0 {
        Seq::empty()
    } else {
        preorder(s.drop_last()) + subtree(s.last())
    }
}

/// One item followed by the pre-order of the items nested in it.
pub open spec fn subtree(it: DocItem) -> Seq<DocItem>
    decreases it,
{
    match it {
        DocItem::Link(l) => seq![it] + preorder(l.nst_itms@),
        _ => seq![it],
    }
}

/// Applies `visitor` to every item of `items`, each after the items nested in it.
pub fn for_each_mut<V: DocItemVisitor>(visitor: &V, items: &mut Vec<DocItem>)
    ensures
        items_model(final(items)@) == rewrite_all(visitor, items_model(old(items)@)),
    decreases old(items)@,
{
    let mut rest: Vec<DocItem> = Vec::new();
    std::mem::swap(items, &mut rest);
    let ghost orig = rest@;
    let n = rest.len();
    assert(orig.len() <= usize::MAX);
    let mut k: usize = 0;
    while rest.len() > 0
        invariant
            orig == old(items)@,
            orig.len() <= usize::MAX,
            k + rest@.len() == orig.len(),
            rest@ == orig.skip(k as int),
            items_model(items@) == rewrite_all(visitor, items_model(orig.take(k as int))),
        decreases rest@.len(),
    {
        let ghost before = items@;
        let it = rest.remove(0);
        assert(it == orig[k as int]);
        let it = match it {
            DocItem::Link(l) => {
                assert(decreases_to!(orig => l.nst_itms@)) by {
                    assert(decreases_to!(orig => orig[k as int]));
                    assert(decreases_to!(orig[k as int] => l));
                    assert(decreases_to!(l => l.nst_itms));
                    assert(decreases_to!(l.nst_itms => l.nst_itms@));
                };
                let mut l = l;
                for_each_mut(visitor, &mut l.nst_itms);
                DocItem::Link(l)
            },
            other => other,
        };
        let r = visitor.visit(it);
        assert(item_model(r) == rewrite_item(visitor, item_model(orig[k as int])));
        items.push(r);
        k = k + 1;
        assert(rest@ =~= orig.skip(k as int));
        assert(orig.take(k as int).drop_last() =~= orig.take((k - 1) as int));
        assert(items@.drop_last() =~= before);
        assert(orig.take(k as int).last() == orig[k - 1]);
        assert(items_model(orig.take(k as int)).drop_last() =~= items_model(orig.take((k - 1) as int)));
        assert(items_model(orig.take(k as int)).last() == item_model(orig[k - 1]));
    }
    assert(orig.take(k as int) =~= orig);
}

/// Appends the items of `items` to `out` in pre-order.
fn collect_preorder<'a>(items: &'a Vec<DocItem>, out: &mut Vec<&'a DocItem>)
    ensures
        final(out)@.map_values(|r: &DocItem| *r) == old(out)@.map_values(|r: &DocItem| *r)
            + preorder(items@),
    decreases items@,
{
    let mut i: usize = 0;
    while i < items.len()
        invariant
            i <= items@.len(),
            out@.map_values(|r: &DocItem| *r) == old(out)@.map_values(|r: &DocItem| *r)
                + preorder(items@.take(i as int)),
        decreases items@.len() - i,
    {
        let ghost before = out@.map_values(|r: &DocItem| *r);
        let item = &items[i];
        out.push(item);
        assert(out@.map_values(|r: &DocItem| *r) =~= before.push(*item));
        match item {
            DocItem::Link(l) => {
                assert(decreases_to!(items@ => l.nst_itms@)) by {
                    assert(decreases_to!(items@ => items@[i as int]));
                    assert(decreases_to!(items@[i as int] => *l));
                    assert(decreases_to!(*l => l.nst_itms));
                    assert(decreases_to!(l.nst_itms => l.nst_itms@));
                };
                collect_preorder(&l.nst_itms, out);
            },
            _ => {},
        }
        assert(items@.take(i + 1).drop_last() =~= items@.take(i as int));
        assert(before.push(*item) + preorder(
            match *item {
                DocItem::Link(l) => l.nst_itms@,
                _ => Seq::empty(),
            },
        ) =~= before + subtree(*item)) by {
            match *item {
                DocItem::Link(l) => {},
                _ => {
                    assert(preorder(Seq::<DocItem>::empty()) =~= Seq::<DocItem>::empty());
                },
            }
        };
        i = i + 1;
    }
    assert(items@.take(i as int) =~= items@);
}

/// A book: the compiled outline tree that preprocessors rewrite and renderers read.
pub struct Docgen {
    pub sections: Vec<DocItem>,
}

impl Docgen {
    /// A book without sections.
    pub fn new() -> (r: Docgen)
        ensures
            r.sections@.len() == 0,
    {
        Docgen { sections: Vec::new() }
    }

    /// The book of an outline: its prefix, numbered and suffix items, in that order.
    pub fn from_introduction(introduction: Introduction) -> (r: Docgen)
        ensures
            items_model(r.sections@) == introduction_model(introduction).prefix_sections
                + introduction_model(introduction).numbered_sections
                + introduction_model(introduction).suffix_sections,
    {
        let Introduction { title: _, prefix_sections, numbered_sections, suffix_sections } =
            introduction;
        let mut sections = prefix_sections;
        let mut numbered = numbered_sections;
        let mut suffix = suffix_sections;
        proof {
            lemma_items_model_append(sections@, numbered@);
            lemma_items_model_append(sections@ + numbered@, suffix@);
        }
        sections.append(&mut numbered);
        sections.append(&mut suffix);
        Docgen { sections }
    }

    /// All items of the book in pre-order: each item, then the items nested in it.
    pub fn iter(&self) -> (r: Vec<&DocItem>)
        ensures
            r@.map_values(|x: &DocItem| *x) == preorder(self.sections@),
    {
        let mut out: Vec<&DocItem> = Vec::new();
        collect_preorder(&self.sections, &mut out);
        assert(Seq::<&DocItem>::empty().map_values(|x: &DocItem| *x) + preorder(self.sections@)
            =~= preorder(self.sections@));
        out
    }

    /// Applies `visitor` to every item of the book, each after the items nested in it.
    pub fn for_each_mut<V: DocItemVisitor>(&mut self, visitor: &V)
        ensures
            items_model(final(self).sections@) == rewrite_all(
                visitor,
                items_model(old(self).sections@),
            ),
    {
        for_each_mut(visitor, &mut self.sections);
    }
}

/// Compiles the outline text `introduction` and makes a book of it.
pub fn init_docgen(introduction: &str) -> (r: Result<Docgen, ParseError>)
    requires
        introduction.spec_bytes().len() < usize::MAX,
    ensures
        match outline(markdown_events(introduction@)) {
            Ok(m) => r matches Ok(book) && items_model(book.sections@) == m.prefix_sections
                + m.numbered_sections + m.suffix_sections,
            Err(_) => r is Err,
        },
{
    match parse_introduction(introduction) {
        Ok(intro) => Ok(Docgen::from_introduction(intro)),
        Err(e) => Err(e),
    }
}

/// A visitor that leaves every item as it is leaves the whole tree as it is: same items in
/// the same order, with the same names, locations and numbers.
pub proof fn law_keeping_visitor_keeps_tree<V: DocItemVisitor>(v: &V, items: Seq<ItemModel>)
    requires
        forall|it: ItemModel| #[trigger] v.rewrite(it) == it,
    ensures
        rewrite_all(v, items) == items,
    decreases items,
{
    if items.len() > 0 {
        law_keeping_visitor_keeps_tree(v, items.drop_last());
        lemma_keeping_visitor_keeps_item(v, items.last());
        assert(items.drop_last().push(items.last()) =~= items);
    }
}

proof fn lemma_keeping_visitor_keeps_item<V: DocItemVisitor>(v: &V, it: ItemModel)
    requires
        forall|x: ItemModel| #[trigger] v.rewrite(x) == x,
    ensures
        rewrite_item(v, it) == it,
    decreases it,
{
    match it {
        ItemModel::Link(l) => {
            law_keeping_visitor_keeps_tree(v, l.children);
        },
        _ => {},
    }
}

} // verus!
