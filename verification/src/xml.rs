//! The items of an XML document, as quick_xml reads them.
use vstd::prelude::*;
use quick_xml::events::Event::{End, Eof, Start, Text};

verus! {

/// A start or empty-element tag: its name and its attributes in document
/// order, each value raw (entities are not decoded).
pub struct XmlTag {
    pub name: String,
    pub attrs: Vec<(String, String)>,
}

/// One event of a document: a start tag (an empty-element tag reads as a
/// start tag followed by its end tag), a text as written (entities not yet
/// decoded), or an end tag's name.
pub enum XmlItem {
    Tag(XmlTag),
    Text(String),
    End(String),
}

/// The plain value of an `XmlItem`.
pub enum XmlItemView {
    Tag(Seq<char>, Seq<(Seq<char>, Seq<char>)>),
    Text(Seq<char>),
    End(Seq<char>),
}

pub open spec fn attr_views(a: Seq<(String, String)>) -> Seq<(Seq<char>, Seq<char>)> {
    a.map_values(|p: (String, String)| (p.0@, p.1@))
}

pub open spec fn tag_view(t: XmlTag) -> (Seq<char>, Seq<(Seq<char>, Seq<char>)>) {
    (t.name@, attr_views(t.attrs@))
}

pub open spec fn tag_views(ts: Seq<XmlTag>) -> Seq<(Seq<char>, Seq<(Seq<char>, Seq<char>)>)> {
    ts.map_values(|t: XmlTag| tag_view(t))
}

pub open spec fn item_view(i: XmlItem) -> XmlItemView {
    match i {
        XmlItem::Tag(t) => XmlItemView::Tag(t.name@, attr_views(t.attrs@)),
        XmlItem::Text(s) => XmlItemView::Text(s@),
        XmlItem::End(n) => XmlItemView::End(n@),
    }
}

pub open spec fn items_view(is: Seq<XmlItem>) -> Seq<XmlItemView> {
    is.map_values(|i: XmlItem| item_view(i))
}

/// The start, text and end events that quick_xml's `Reader::read_event`
/// yields for a document with `expand_empty_elements` set, up to its end
/// or its first error: tags with the attributes that `attributes()` yields
/// without error, texts as written.
pub uninterp spec fn xml_items_of(xml: Seq<char>) -> Seq<XmlItemView>;

/// Read the events of `xml` with quick_xml (see `xml_items_of`). Names,
/// keys and values are slices of the `&str` input cut at ASCII delimiters,
/// so their UTF-8 conversion is exact.
#[verifier::external_body]
pub(crate) fn read_xml_items(xml: &str) -> (r: Vec<XmlItem>)
    ensures
        items_view(r@) == xml_items_of(xml@),
{
    let s = |b: &[u8]| String::from_utf8_lossy(b).into_owned();
    let mut reader = quick_xml::Reader::from_str(xml);
    reader.config_mut().expand_empty_elements = true;
    let mut items = Vec::new();
    while let Ok(ev) = reader.read_event() {
        items.push(match ev {
            Start(e) => XmlItem::Tag(XmlTag { name: s(e.name().0), attrs: e.attributes().flatten().map(|a| (s(a.key.0), s(&a.value))).collect() }),
            Text(t) => XmlItem::Text(s(&t)),
            End(e) => XmlItem::End(s(e.name().0)),
            Eof => return items,
            _ => continue,
        });
    }
    items
}

/// What quick_xml's `escape::unescape` makes of a text: its predefined and
/// character entities decoded, `None` where an entity is malformed or
/// unknown. (This is what `BytesText::unescape` gives for a text read from
/// a `&str`, whose decoding step leaves it as it is.)
pub uninterp spec fn unescaped_of(raw: Seq<char>) -> Option<Seq<char>>;

/// Decode the entities of a text with quick_xml (see `unescaped_of`).
#[verifier::external_body]
pub(crate) fn unescape_text(raw: &str) -> (r: Option<String>)
    ensures
        match r {
            Some(t) => unescaped_of(raw@) == Some(t@),
            None => unescaped_of(raw@) is None,
        },
{
    quick_xml::escape::unescape(raw).ok().map(String::from)
}

/// The tags among `items`, in document order.
pub open spec fn tags_of_items(items: Seq<XmlItemView>) -> Seq<(Seq<char>, Seq<(Seq<char>, Seq<char>)>)>
    decreases items.len(),
{
    if items.len() == 0 {
        seq![]
    } else {
        let rest = tags_of_items(items.drop_last());
        match items.last() {
            XmlItemView::Tag(n, a) => rest.push((n, a)),
            _ => rest,
        }
    }
}

/// The start and empty-element tags of a document, as quick_xml reads it.
pub open spec fn xml_tags_of(xml: Seq<char>) -> Seq<(Seq<char>, Seq<(Seq<char>, Seq<char>)>)> {
    tags_of_items(xml_items_of(xml))
}

fn copy_tag(t: &XmlTag) -> (r: XmlTag)
    ensures
        tag_view(r) == tag_view(*t),
{
    let mut attrs: Vec<(String, String)> = Vec::new();
    let mut i: usize = 0;
    while i < t.attrs.len()
        invariant
            i <= t.attrs@.len(),
            attr_views(attrs@) == attr_views(t.attrs@).take(i as int),
        decreases t.attrs@.len() - i,
    {
        let ghost before = attrs@;
        attrs.push((t.attrs[i].0.clone(), t.attrs[i].1.clone()));
        assert(attr_views(attrs@) =~= attr_views(before).push((t.attrs@[i as int].0@, t.attrs@[i as int].1@)));
        assert(attr_views(t.attrs@).take(i + 1) =~= attr_views(t.attrs@).take(i as int).push(
            attr_views(t.attrs@)[i as int],
        ));
        i = i + 1;
    }
    assert(attr_views(t.attrs@).take(i as int) =~= attr_views(t.attrs@));
    XmlTag { name: t.name.clone(), attrs }
}

/// The start and empty-element tags of `xml` (see `xml_tags_of`).
pub fn read_xml_tags(xml: &str) -> (r: Vec<XmlTag>)
    ensures
        tag_views(r@) == xml_tags_of(xml@),
{
    let items = read_xml_items(xml);
    let ghost iv = items_view(items@);
    let mut tags: Vec<XmlTag> = Vec::new();
    let mut i: usize = 0;
    assert(iv.take(0) =~= Seq::<XmlItemView>::empty());
    while i < items.len()
        invariant
            i <= items@.len(),
            iv == items_view(items@),
            tag_views(tags@) == tags_of_items(iv.take(i as int)),
        decreases items@.len() - i,
    {
        assert(iv.take(i + 1).drop_last() =~= iv.take(i as int));
        assert(iv.take(i + 1).last() == item_view(items@[i as int]));
        match &items[i] {
            XmlItem::Tag(t) => {
                let ghost before = tags@;
                tags.push(copy_tag(t));
                assert(tag_views(tags@) =~= tag_views(before).push(tag_view(*t)));
            },
            _ => {},
        }
        i = i + 1;
    }
    assert(iv.take(i as int) =~= iv);
    tags
}

} // verus!
