//! The compiled outline: document items, section numbers, and their mathematical models.
use vstd::prelude::*;
use crate::text::push_char;
use vstd::string::StringExecFns;

verus! {

/// A hierarchical section number such as `1.2.3`, one component per nesting level.
#[derive(Debug, Clone, PartialEq, Eq)]
pub struct SectionNumber(pub Vec<usize>);

/// A chapter entry of the outline.
#[derive(Debug, PartialEq)]
pub struct Link {
    /// The text shown for the chapter.
    pub name: String,
    /// The chapter's source file, or `None` for a draft chapter that has no file yet.
    pub location: Option<String>,
    /// The chapter's number, present only in the numbered part of the outline.
    pub number: Option<SectionNumber>,
    /// The chapters nested below this one.
    pub nst_itms: Vec<DocItem>,
}

/// One node of the compiled outline tree.
#[derive(Debug, PartialEq)]
pub enum DocItem {
    Link(Link),
    Separator,
    PartTitle(String),
}

/// The outline of a book: optional title, then prefix, numbered and suffix items.
#[derive(Debug, PartialEq)]
pub struct Introduction {
    pub title: Option<String>,
    pub prefix_sections: Vec<DocItem>,
    pub numbered_sections: Vec<DocItem>,
    pub suffix_sections: Vec<DocItem>,
}

/// The mathematical value of a [`Link`].
pub struct LinkModel {
    pub name: Seq<char>,
    pub location: Option<Seq<char>>,
    pub number: Option<Seq<int>>,
    pub children: Seq<ItemModel>,
}

/// The mathematical value of a [`DocItem`].
pub enum ItemModel {
    Link(LinkModel),
    Separator,
    PartTitle(Seq<char>),
}

/// The mathematical value of an [`Introduction`].
pub struct IntroductionModel {
    pub title: Option<Seq<char>>,
    pub prefix_sections: Seq<ItemModel>,
    pub numbered_sections: Seq<ItemModel>,
    pub suffix_sections: Seq<ItemModel>,
}

/// The components of a section number, as integers.
pub open spec fn ints(v: Seq<usize>) -> Seq<int> {
    v.map_values(|c: usize| c as int)
}

/// The mathematical value of a [`SectionNumber`].
pub open spec fn number_model(n: SectionNumber) -> Seq<int> {
    ints(n.0@)
}

/// The characters of an optional string.
pub open spec fn opt_string_model(s: Option<String>) -> Option<Seq<char>> {
    match s {
        Some(s) => Some(s@),
        None => None,
    }
}

/// The mathematical value of a [`Link`].
pub open spec fn link_model(l: Link) -> LinkModel
    decreases l,
{
    LinkModel {
        name: l.name@,
        location: opt_string_model(l.location),
        number: match l.number {
            Some(n) => Some(number_model(n)),
            None => None,
        },
        children: items_model(l.nst_itms@),
    }
}

/// The mathematical value of a [`DocItem`].
pub open spec fn item_model(item: DocItem) -> ItemModel
    decreases item,
{
    match item {
        DocItem::Link(l) => ItemModel::Link(link_model(l)),
        DocItem::Separator => ItemModel::Separator,
        DocItem::PartTitle(t) => ItemModel::PartTitle(t@),
    }
}

/// The models of a sequence of items, element by element.
pub open spec fn items_model(s: Seq<DocItem>) -> Seq<ItemModel>
    decreases s,
{
    if s.len() == 0 {
        Seq::empty()
    } else {
        items_model(s.drop_last()).push(item_model(s.last()))
    }
}

/// The mathematical value of an [`Introduction`].
pub open spec fn introduction_model(i: Introduction) -> IntroductionModel {
    IntroductionModel {
        title: opt_string_model(i.title),
        prefix_sections: items_model(i.prefix_sections@),
        numbered_sections: items_model(i.numbered_sections@),
        suffix_sections: items_model(i.suffix_sections@),
    }
}

/// The decimal digits of `n`, most significant first.
pub open spec fn decimal(n: nat) -> Seq<char>
    decreases n,
{
    if n < 10 {
        seq![((n + 48) as u8) as char]
    } else {
        decimal(n / 10).push((((n % 10) + 48) as u8) as char)
    }
}

/// A section number written with dots between its components, such as `1.2.3`.
pub open spec fn dotted(c: Seq<int>) -> Seq<char>
    decreases c.len(),
{
    if c.len() == 0 {
        Seq::empty()
    } else if c.len() == 1 {
        decimal(c[0] as nat)
    } else {
        dotted(c.drop_last()) + seq!['.'] + decimal(c.last() as nat)
    }
}

fn append_decimal(s: &mut String, n: usize)
    ensures
        final(s)@ == old(s)@ + decimal(n as nat),
    decreases n,
{
    if n >= 10 {
        append_decimal(s, n / 10);
    }
    let d = (n % 10) as u8;
    push_char(s, (d + 48) as char);
    proof {
        if n < 10 {
            assert(old(s)@.push(((n + 48) as u8) as char) =~= old(s)@ + decimal(n as nat));
        } else {
            assert((old(s)@ + decimal((n / 10) as nat)).push((((n % 10) + 48) as u8) as char)
                =~= old(s)@ + decimal(n as nat));
        }
    }
}

impl SectionNumber {
    /// The number with dots between its components, such as `1.2.3`.
    pub fn dotted(&self) -> (r: String)
        ensures
            r@ == dotted(number_model(*self)),
    {
        let mut r = String::new();
        let mut i: usize = 0;
        while i < self.0.len()
            invariant
                i <= self.0@.len(),
                r@ == dotted(number_model(*self).take(i as int)),
            decreases self.0@.len() - i,
        {
            let ghost c = number_model(*self);
            if i > 0 {
                push_char(&mut r, '.');
            }
            append_decimal(&mut r, self.0[i]);
            proof {
                assert(c.take(i + 1).drop_last() =~= c.take(i as int));
                if i == 0 {
                    assert(Seq::<char>::empty() + decimal(self.0@[0] as nat) =~= decimal(self.0@[0] as nat));
                }
            }
            i = i + 1;
        }
        assert(number_model(*self).take(i as int) =~= number_model(*self));
        r
    }
}

impl Link {
    /// A chapter named `name` whose source file is `location`, without number or nested items.
    pub fn new(name: &str, location: &str) -> (r: Link)
        ensures
            link_model(r) == (LinkModel {
                name: name@,
                location: Some(location@),
                number: None,
                children: Seq::empty(),
            }),
    {
        let r = Link {
            name: String::from_str(name),
            location: Some(String::from_str(location)),
            number: None,
            nst_itms: Vec::new(),
        };
        assert(items_model(r.nst_itms@) =~= Seq::<ItemModel>::empty());
        r
    }
}

impl Default for Link {
    /// A chapter with an empty name and an empty location.
    fn default() -> (r: Link)
        ensures
            link_model(r) == (LinkModel {
                name: Seq::empty(),
                location: Some(Seq::empty()),
                number: None,
                children: Seq::empty(),
            }),
    {
        let r = Link { name: String::new(), location: Some(String::new()), number: None, nst_itms: Vec::new() };
        assert(items_model(r.nst_itms@) =~= Seq::<ItemModel>::empty());
        r
    }
}

impl Default for Introduction {
    /// An outline without title or items.
    fn default() -> (r: Introduction)
        ensures
            introduction_model(r) == (IntroductionModel {
                title: None,
                prefix_sections: Seq::empty(),
                numbered_sections: Seq::empty(),
                suffix_sections: Seq::empty(),
            }),
    {
        let r = Introduction {
            title: None,
            prefix_sections: Vec::new(),
            numbered_sections: Vec::new(),
            suffix_sections: Vec::new(),
        };
        assert(items_model(r.prefix_sections@) =~= Seq::<ItemModel>::empty());
        r
    }
}

impl DocItem {
    /// The link that this item is, to change in place; `None` for other items.
    pub fn conf_link_mut(&mut self) -> (r: Option<&mut Link>)
        ensures
            match *old(self) {
                DocItem::Link(l) => r is Some && *r->Some_0 == l && *final(self) == DocItem::Link(
                    *final(r->Some_0),
                ),
                _ => r is None && *final(self) == *old(self),
            },
    {
        match self {
            DocItem::Link(l) => Some(l),
            _ => None,
        }
    }
}

impl From<Link> for DocItem {
    fn from(other: Link) -> (r: DocItem)
        ensures
            r == DocItem::Link(other),
    {
        DocItem::Link(other)
    }
}

impl vstd::std_specs::convert::FromSpecImpl<Link> for DocItem {
    open spec fn obeys_from_spec() -> bool {
        true
    }

    open spec fn from_spec(v: Link) -> DocItem {
        DocItem::Link(v)
    }
}

/// Pushing an item pushes its model.
pub proof fn lemma_items_model_push(s: Seq<DocItem>, x: DocItem)
    ensures
        items_model(s.push(x)) == items_model(s).push(item_model(x)),
{
    assert(s.push(x).drop_last() =~= s);
}

/// The models of a sequence of items are as many as the items.
pub proof fn lemma_items_model_len(s: Seq<DocItem>)
    ensures
        items_model(s).len() == s.len(),
    decreases s.len(),
{
    if s.len() > 0 {
        lemma_items_model_len(s.drop_last());
    }
}

/// The models of two joined sequences are the two sequences of models, joined.
pub proof fn lemma_items_model_append(a: Seq<DocItem>, b: Seq<DocItem>)
    ensures
        items_model(a + b) == items_model(a) + items_model(b),
    decreases b.len(),
{
    if b.len() == 0 {
        assert(a + b =~= a);
        assert(items_model(a) + items_model(b) =~= items_model(a));
    } else {
        lemma_items_model_append(a, b.drop_last());
        assert((a + b).drop_last() =~= a + b.drop_last());
        assert((a + b).last() == b.last());
        assert(items_model(a + b) =~= items_model(a) + items_model(b));
    }
}

} // verus!
