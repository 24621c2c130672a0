//! Reading an Android app's resources: colour values, font names, layout
//! attributes and vector drawables.
use vstd::prelude::*;
use crate::text::{
    chars_of, contains, contains_exec, copy_range, ends_with, lowercase, opt_view, starts_with, trim,
    starts_with_exec, string_of, strings_view, to_lowercase, to_uppercase, uppercase,
};
use crate::xml::{
    attr_views, item_view, items_view, read_xml_items, read_xml_tags, tag_views, unescape_text,
    unescaped_of, xml_items_of, xml_tags_of, XmlItem, XmlItemView, XmlTag,
};

verus! {

// ---------------------------------------------------------------------------
// Colours
// ---------------------------------------------------------------------------

/// `#RGB` becomes `#RRGGBB` and `#ARGB` becomes `#AARRGGBB` (by the byte
/// length of the text); the long forms `#RRGGBB` and `#AARRGGBB` (seven or
/// nine bytes) pass through as written; any other text is upper-cased.
pub open spec fn normalize_hex_spec(h: Seq<char>) -> Seq<char> {
    let n = vstd::utf8::encode_utf8(h).len();
    if n == 4 {
        seq!['#', h[1], h[1], h[2], h[2], h[3], h[3]]
    } else if n == 5 {
        seq!['#', h[1], h[1], h[2], h[2], h[3], h[3], h[4], h[4]]
    } else if n == 7 || n == 9 {
        h
    } else {
        uppercase(h)
    }
}

/// A colour value in its long form. A text of four or five bytes must
/// have as many characters (the short forms are ASCII).
pub fn normalize_hex(hex: &str) -> (r: String)
    requires
        vstd::utf8::encode_utf8(hex@).len() == 4 ==> hex@.len() >= 4,
        vstd::utf8::encode_utf8(hex@).len() == 5 ==> hex@.len() >= 5,
    ensures
        r@ == normalize_hex_spec(hex@),
{
    let n = hex.as_bytes().len();
    if n == 4 {
        let c = chars_of(hex);
        let mut v: Vec<char> = Vec::new();
        v.push('#');
        v.push(c[1]);
        v.push(c[1]);
        v.push(c[2]);
        v.push(c[2]);
        v.push(c[3]);
        v.push(c[3]);
        assert(v@ =~= normalize_hex_spec(hex@));
        string_of(&v)
    } else if n == 5 {
        let c = chars_of(hex);
        let mut v: Vec<char> = Vec::new();
        v.push('#');
        v.push(c[1]);
        v.push(c[1]);
        v.push(c[2]);
        v.push(c[2]);
        v.push(c[3]);
        v.push(c[3]);
        v.push(c[4]);
        v.push(c[4]);
        assert(v@ =~= normalize_hex_spec(hex@));
        string_of(&v)
    } else if n == 7 || n == 9 {
        String::from_str(hex)
    } else {
        to_uppercase(hex)
    }
}

/// A colour text that `normalize_hex` can read: one of four or five
/// bytes has as many characters.
pub open spec fn hex_fits(h: Seq<char>) -> bool {
    &&& vstd::utf8::encode_utf8(h).len() == 4 ==> h.len() >= 4
    &&& vstd::utf8::encode_utf8(h).len() == 5 ==> h.len() >= 5
}

fn hex_fits_exec(h: &str) -> (r: bool)
    ensures
        r == hex_fits(h@),
{
    let n = h.as_bytes().len();
    let c = h.unicode_len();
    !(n == 4 && c < 4) && !(n == 5 && c < 5)
}

/// The value of the last `name` attribute.
pub open spec fn name_attr(attrs: Seq<(Seq<char>, Seq<char>)>) -> Option<Seq<char>>
    decreases attrs.len(),
{
    if attrs.len() == 0 {
        None
    } else if attrs.last().0 == "name"@ {
        Some(attrs.last().1)
    } else {
        name_attr(attrs.drop_last())
    }
}

/// The name of the `color` element open after `items`: set by a `color`
/// start tag that carries a name, cleared by a `color` end tag.
pub open spec fn open_colour(items: Seq<XmlItemView>) -> Option<Seq<char>>
    decreases items.len(),
{
    if items.len() == 0 {
        None
    } else {
        let before = open_colour(items.drop_last());
        match items.last() {
            XmlItemView::Tag(n, a) => if n == "color"@ && name_attr(a) is Some {
                name_attr(a)
            } else {
                before
            },
            XmlItemView::End(n) => if n == "color"@ {
                None
            } else {
                before
            },
            _ => before,
        }
    }
}

/// The value a text gives: its entities decoded, trimmed; empty where it
/// cannot be decoded.
pub open spec fn colour_text(raw: Seq<char>) -> Seq<char> {
    match unescaped_of(raw) {
        Some(t) => trim(t),
        None => seq![],
    }
}

/// A text inside a named `color` element whose value starts with `#`.
pub open spec fn is_colour_text(before: Seq<XmlItemView>, raw: Seq<char>) -> bool {
    open_colour(before) is Some && starts_with(colour_text(raw), "#"@)
}

/// The colours a `colors.xml` document defines, in document order: for each
/// `#` value inside a named `color` element, the name and the long form of
/// the value.
pub open spec fn colours_spec(items: Seq<XmlItemView>) -> Seq<(Seq<char>, Seq<char>)>
    decreases items.len(),
{
    if items.len() == 0 {
        seq![]
    } else {
        let rest = colours_spec(items.drop_last());
        match items.last() {
            XmlItemView::Text(raw) => if is_colour_text(items.drop_last(), raw) {
                rest.push(
                    (open_colour(items.drop_last())->0, normalize_hex_spec(colour_text(raw))),
                )
            } else {
                rest
            },
            _ => rest,
        }
    }
}

/// Every colour value of the document is one `normalize_hex` can read.
pub open spec fn colours_fit(items: Seq<XmlItemView>) -> bool
    decreases items.len(),
{
    if items.len() == 0 {
        true
    } else {
        colours_fit(items.drop_last()) && match items.last() {
            XmlItemView::Text(raw) => is_colour_text(items.drop_last(), raw) ==> hex_fits(
                colour_text(raw),
            ),
            _ => true,
        }
    }
}

proof fn lemma_colours_fit_prefix(items: Seq<XmlItemView>, k: int)
    requires
        colours_fit(items),
        0 <= k <= items.len(),
    ensures
        colours_fit(items.take(k)),
    decreases items.len(),
{
    if k == items.len() {
        assert(items.take(k) =~= items);
    } else {
        assert(items.drop_last().take(k) =~= items.take(k));
        lemma_colours_fit_prefix(items.drop_last(), k);
    }
}

fn name_attr_exec(attrs: &Vec<(String, String)>) -> (r: Option<String>)
    ensures
        opt_view(r) == name_attr(attr_views(attrs@)),
{
    let ghost av = attr_views(attrs@);
    let mut r: Option<String> = None;
    let mut j: usize = 0;
    assert(av.take(0) =~= Seq::<(Seq<char>, Seq<char>)>::empty());
    while j < attrs.len()
        invariant
            j <= attrs@.len(),
            av == attr_views(attrs@),
            opt_view(r) == name_attr(av.take(j as int)),
        decreases attrs@.len() - j,
    {
        assert(av.take(j + 1).drop_last() =~= av.take(j as int));
        assert(av.take(j + 1).last() == (attrs@[j as int].0@, attrs@[j as int].1@));
        if is(attrs[j].0.as_str(), "name") {
            r = Some(attrs[j].1.clone());
        }
        j = j + 1;
    }
    assert(av.take(j as int) =~= av);
    r
}

/// The colours of a document's items (see `colours_spec`); `None` when a
/// colour value of four or five bytes has fewer characters, which the long
/// form cannot be made of.
pub fn colours_of_items(items: &Vec<XmlItem>) -> (r: Option<Vec<(String, String)>>)
    ensures
        match r {
            Some(v) => colours_fit(items_view(items@)) && attr_views(v@) == colours_spec(
                items_view(items@),
            ),
            None => !colours_fit(items_view(items@)),
        },
{
    let ghost iv = items_view(items@);
    let mut cur: Option<String> = None;
    let mut out: Vec<(String, String)> = Vec::new();
    let mut i: usize = 0;
    assert(iv.take(0) =~= Seq::<XmlItemView>::empty());
    while i < items.len()
        invariant
            i <= items@.len(),
            iv == items_view(items@),
            opt_view(cur) == open_colour(iv.take(i as int)),
            attr_views(out@) == colours_spec(iv.take(i as int)),
            colours_fit(iv.take(i as int)),
        decreases items@.len() - i,
    {
        let ghost pre = iv.take(i as int);
        proof {
            assert(iv.take(i + 1).drop_last() =~= pre);
            assert(iv.take(i + 1).last() == item_view(items@[i as int]));
        }
        match &items[i] {
            XmlItem::Tag(t) => {
                if is(t.name.as_str(), "color") {
                    match name_attr_exec(&t.attrs) {
                        Some(n) => cur = Some(n),
                        None => {},
                    }
                }
            },
            XmlItem::End(n) => {
                if is(n.as_str(), "color") {
                    cur = None;
                }
            },
            XmlItem::Text(raw) => {
                match &cur {
                    Some(name) => {
                        let v = match unescape_text(raw.as_str()) {
                            Some(t) => string_of(&crate::text::trim_vec(&chars_of(t.as_str()))),
                            None => String::new(),
                        };
                        assert(v@ == colour_text(raw@));
                        if starts_with_exec(&chars_of(v.as_str()), &chars_of("#")) {
                            if !hex_fits_exec(v.as_str()) {
                                proof {
                                    if colours_fit(iv) {
                                        lemma_colours_fit_prefix(iv, i + 1);
                                    }
                                }
                                return None;
                            }
                            let ghost before = out@;
                            out.push((name.clone(), normalize_hex(v.as_str())));
                            assert(attr_views(out@) =~= attr_views(before).push(
                                (open_colour(pre)->0, normalize_hex_spec(colour_text(raw@))),
                            ));
                        }
                    },
                    None => {},
                }
            },
        }
        i = i + 1;
    }
    assert(iv.take(i as int) =~= iv);
    Some(out)
}

/// The colours a `colors.xml` document defines (see `colours_spec`), read
/// with quick_xml; `None` when a colour value of four or five bytes has
/// fewer characters.
pub fn parse_color_xml(xml: &str) -> (r: Option<Vec<(String, String)>>)
    ensures
        match r {
            Some(v) => colours_fit(xml_items_of(xml@)) && attr_views(v@) == colours_spec(
                xml_items_of(xml@),
            ),
            None => !colours_fit(xml_items_of(xml@)),
        },
{
    let items = read_xml_items(xml);
    colours_of_items(&items)
}

/// How a colour attribute refers to its value.
pub enum ColorRef {
    /// A literal `#...` value.
    Literal(String),
    /// A named colour of the app (`@color/`) or of the platform
    /// (`@android:color/`), to look up by this name.
    Named(String),
    /// Anything else (a theme attribute, say): not resolved.
    Unresolved,
}

pub open spec fn color_ref_spec(r: Seq<char>) -> (int, Seq<char>) {
    if starts_with(r, "#"@) {
        (0, r)
    } else if starts_with(r, "@color/"@) {
        (1, r.skip("@color/"@.len() as int))
    } else if starts_with(r, "@android:color/"@) {
        (1, r.skip("@android:color/"@.len() as int))
    } else {
        (2, seq![])
    }
}

fn strip_prefix_chars(s: &[char], p: &str) -> (r: Option<Vec<char>>)
    ensures
        starts_with(s@, p@) ==> (r matches Some(v) && v@ == s@.skip(p@.len() as int)),
        !starts_with(s@, p@) ==> r is None,
{
    let pc = chars_of(p);
    if starts_with_exec(s, &pc) {
        let v = copy_range(s, pc.len(), s.len());
        assert(v@ =~= s@.skip(p@.len() as int));
        Some(v)
    } else {
        None
    }
}

/// What a colour reference points to.
pub fn color_ref(reference: &str) -> (r: ColorRef)
    ensures
        match r {
            ColorRef::Literal(s) => color_ref_spec(reference@) == (0int, s@),
            ColorRef::Named(s) => color_ref_spec(reference@) == (1int, s@),
            ColorRef::Unresolved => color_ref_spec(reference@).0 == 2,
        },
{
    let c = chars_of(reference);
    if starts_with_exec(&c, &chars_of("#")) {
        return ColorRef::Literal(String::from_str(reference));
    }
    match strip_prefix_chars(&c, "@color/") {
        Some(n) => ColorRef::Named(string_of(&n)),
        None => match strip_prefix_chars(&c, "@android:color/") {
            Some(n) => ColorRef::Named(string_of(&n)),
            None => ColorRef::Unresolved,
        },
    }
}

/// The drawable a `src` reference names (`@drawable/` or `@mipmap/`).
pub open spec fn drawable_name_spec(r: Seq<char>) -> Option<Seq<char>> {
    if starts_with(r, "@drawable/"@) {
        Some(r.skip("@drawable/"@.len() as int))
    } else if starts_with(r, "@mipmap/"@) {
        Some(r.skip("@mipmap/"@.len() as int))
    } else {
        None
    }
}

pub fn drawable_name(reference: &str) -> (r: Option<String>)
    ensures
        crate::text::opt_view(r) == drawable_name_spec(reference@),
{
    let c = chars_of(reference);
    match strip_prefix_chars(&c, "@drawable/") {
        Some(n) => Some(string_of(&n)),
        None => match strip_prefix_chars(&c, "@mipmap/") {
            Some(n) => Some(string_of(&n)),
            None => None,
        },
    }
}

// ---------------------------------------------------------------------------
// Fonts
// ---------------------------------------------------------------------------

/// The weight suffixes a font resource name may carry, in the order tried.
pub open spec fn weight_suffixes() -> Seq<Seq<char>> {
    seq![
        "_thin"@,
        "_extra_light"@,
        "_extralight"@,
        "_light"@,
        "_regular"@,
        "_medium"@,
        "_semi_bold"@,
        "_semibold"@,
        "_bold"@,
        "_extra_bold"@,
        "_extrabold"@,
        "_black"@,
        "-thin"@,
        "-light"@,
        "-regular"@,
        "-medium"@,
        "-semi-bold"@,
        "-semibold"@,
        "-bold"@,
    ]
}

/// `name` without the first of `suffixes[i..]` that it ends with.
pub open spec fn strip_first_suffix(name: Seq<char>, suffixes: Seq<Seq<char>>, i: nat) -> Seq<char>
    decreases suffixes.len() - i,
{
    if i >= suffixes.len() {
        name
    } else if ends_with(name, suffixes[i as int]) {
        name.take(name.len() - suffixes[i as int].len())
    } else {
        strip_first_suffix(name, suffixes, i + 1)
    }
}

pub open spec fn strip_opt_prefix(s: Seq<char>, p: Seq<char>) -> Seq<char> {
    if starts_with(s, p) {
        s.skip(p.len() as int)
    } else {
        s
    }
}

/// The family of a font reference: without `@font/` and `res/font/`, and
/// without a weight suffix.
pub open spec fn font_family_spec(family: Seq<char>) -> Seq<char> {
    strip_first_suffix(
        strip_opt_prefix(strip_opt_prefix(family, "@font/"@), "res/font/"@),
        weight_suffixes(),
        0,
    )
}

fn weight_suffix_list() -> (r: Vec<Vec<char>>)
    ensures
        crate::text::chars_views(r@) == weight_suffixes(),
{
    let mut r: Vec<Vec<char>> = Vec::new();
    r.push(chars_of("_thin"));
    r.push(chars_of("_extra_light"));
    r.push(chars_of("_extralight"));
    r.push(chars_of("_light"));
    r.push(chars_of("_regular"));
    r.push(chars_of("_medium"));
    r.push(chars_of("_semi_bold"));
    r.push(chars_of("_semibold"));
    r.push(chars_of("_bold"));
    r.push(chars_of("_extra_bold"));
    r.push(chars_of("_extrabold"));
    r.push(chars_of("_black"));
    r.push(chars_of("-thin"));
    r.push(chars_of("-light"));
    r.push(chars_of("-regular"));
    r.push(chars_of("-medium"));
    r.push(chars_of("-semi-bold"));
    r.push(chars_of("-semibold"));
    r.push(chars_of("-bold"));
    assert(crate::text::chars_views(r@) =~= weight_suffixes());
    r
}

fn ends_with_chars(s: &[char], p: &[char]) -> (r: bool)
    ensures
        r == ends_with(s@, p@),
{
    if p.len() > s.len() {
        return false;
    }
    let sl = s.len();
    let off = sl - p.len();
    let mut i: usize = 0;
    while i < p.len()
        invariant
            off + p@.len() == s@.len(),
            sl == s@.len(),
            i <= p@.len(),
            forall|j: int| 0 <= j < i ==> s@[off + j] == p@[j],
        decreases p@.len() - i,
    {
        if s[off + i] != p[i] {
            assert(s@.subrange(off as int, s@.len() as int)[i as int] != p@[i as int]);
            return false;
        }
        i = i + 1;
    }
    assert(s@.subrange(off as int, s@.len() as int) =~= p@);
    true
}

/// The family name of a font reference.
pub fn clean_font_family(family: &str) -> (r: String)
    ensures
        r@ == font_family_spec(family@),
{
    let c = chars_of(family);
    let a = match strip_prefix_chars(&c, "@font/") {
        Some(v) => v,
        None => c,
    };
    let b = match strip_prefix_chars(&a, "res/font/") {
        Some(v) => v,
        None => a,
    };
    let sufs = weight_suffix_list();
    let ghost sv = weight_suffixes();
    let mut i: usize = 0;
    while i < sufs.len()
        invariant
            i <= sv.len(),
            crate::text::chars_views(sufs@) == sv,
            sv == weight_suffixes(),
            b@ == strip_opt_prefix(strip_opt_prefix(family@, "@font/"@), "res/font/"@),
            strip_first_suffix(b@, sv, i as nat) == font_family_spec(family@),
        decreases sv.len() - i,
    {
        assert(sufs@[i as int]@ == sv[i as int]);
        if ends_with_chars(&b, &sufs[i]) {
            let keep = b.len() - sufs[i].len();
            let base = copy_range(&b, 0, keep);
            assert(base@ =~= b@.take(b@.len() - sv[i as int].len()));
            return string_of(&base);
        }
        i = i + 1;
    }
    string_of(&b)
}

/// The weight a font name suggests (letter case aside), tried from the
/// heaviest down, with `semibold` told apart from `bold`; `regular` when
/// none.
pub open spec fn weight_spec(family: Seq<char>) -> Seq<char> {
    let l = lowercase(family);
    if contains(l, "black"@) || contains(l, "900"@) {
        "black"@
    } else if contains(l, "extrabold"@) || contains(l, "800"@) {
        "extrabold"@
    } else if contains(l, "semibold"@) || contains(l, "semi_bold"@) || contains(l, "600"@) {
        "semibold"@
    } else if contains(l, "bold"@) || contains(l, "700"@) {
        "bold"@
    } else if contains(l, "medium"@) || contains(l, "500"@) {
        "medium"@
    } else if contains(l, "regular"@) || contains(l, "400"@) {
        "regular"@
    } else if contains(l, "light"@) {
        "light"@
    } else if contains(l, "thin"@) {
        "thin"@
    } else {
        "regular"@
    }
}

fn has(l: &[char], p: &str) -> (r: bool)
    ensures
        r == contains(l@, p@),
{
    contains_exec(l, &chars_of(p))
}

/// The weight of a font from its name.
pub fn extract_weight(family: &str) -> (r: String)
    ensures
        r@ == weight_spec(family@),
{
    let lower = to_lowercase(family);
    let l = chars_of(lower.as_str());
    if has(&l, "black") || has(&l, "900") {
        String::from_str("black")
    } else if has(&l, "extrabold") || has(&l, "800") {
        String::from_str("extrabold")
    } else if has(&l, "semibold") || has(&l, "semi_bold") || has(&l, "600") {
        String::from_str("semibold")
    } else if has(&l, "bold") || has(&l, "700") {
        String::from_str("bold")
    } else if has(&l, "medium") || has(&l, "500") {
        String::from_str("medium")
    } else if has(&l, "regular") || has(&l, "400") {
        String::from_str("regular")
    } else if has(&l, "light") {
        String::from_str("light")
    } else if has(&l, "thin") {
        String::from_str("thin")
    } else {
        String::from_str("regular")
    }
}

// ---------------------------------------------------------------------------
// Layout attributes
// ---------------------------------------------------------------------------

/// An attribute name without its `android:` or `app:` namespace.
pub open spec fn layout_key_spec(key: Seq<char>) -> Seq<char> {
    if starts_with(key, "android:"@) {
        key.skip("android:"@.len() as int)
    } else if starts_with(key, "app:"@) {
        key.skip("app:"@.len() as int)
    } else {
        key
    }
}

pub fn layout_key(key: &str) -> (r: String)
    ensures
        r@ == layout_key_spec(key@),
{
    let c = chars_of(key);
    match strip_prefix_chars(&c, "android:") {
        Some(v) => string_of(&v),
        None => match strip_prefix_chars(&c, "app:") {
            Some(v) => string_of(&v),
            None => String::from_str(key),
        },
    }
}

/// A view id without its `@+id/` or `@id/` prefix.
pub open spec fn view_id_spec(val: Seq<char>) -> Seq<char> {
    if starts_with(val, "@+id/"@) {
        val.skip("@+id/"@.len() as int)
    } else if starts_with(val, "@id/"@) {
        val.skip("@id/"@.len() as int)
    } else {
        val
    }
}

pub fn view_id(val: &str) -> (r: String)
    ensures
        r@ == view_id_spec(val@),
{
    let c = chars_of(val);
    match strip_prefix_chars(&c, "@+id/") {
        Some(v) => string_of(&v),
        None => match strip_prefix_chars(&c, "@id/") {
            Some(v) => string_of(&v),
            None => String::from_str(val),
        },
    }
}

/// What a layout attribute (its name without namespace) sets.
#[derive(PartialEq, Eq, Structural)]
pub enum LayoutAttr {
    Id,
    TextColor,
    TextSize,
    FontFamily,
    Background,
    Src,
    Padding,
    PaddingTop,
    PaddingBottom,
    PaddingStart,
    PaddingEnd,
    Other,
}

pub open spec fn layout_attr_spec(k: Seq<char>) -> LayoutAttr {
    if k == "id"@ {
        LayoutAttr::Id
    } else if k == "textColor"@ {
        LayoutAttr::TextColor
    } else if k == "textSize"@ {
        LayoutAttr::TextSize
    } else if k == "fontFamily"@ {
        LayoutAttr::FontFamily
    } else if k == "background"@ || k == "backgroundTint"@ {
        LayoutAttr::Background
    } else if k == "src"@ || k == "srcCompat"@ {
        LayoutAttr::Src
    } else if k == "padding"@ {
        LayoutAttr::Padding
    } else if k == "paddingTop"@ || k == "paddingVertical"@ {
        LayoutAttr::PaddingTop
    } else if k == "paddingBottom"@ {
        LayoutAttr::PaddingBottom
    } else if k == "paddingStart"@ || k == "paddingLeft"@ || k == "paddingHorizontal"@ {
        LayoutAttr::PaddingStart
    } else if k == "paddingEnd"@ || k == "paddingRight"@ {
        LayoutAttr::PaddingEnd
    } else {
        LayoutAttr::Other
    }
}

fn is(k: &str, w: &str) -> (r: bool)
    ensures
        r == (k@ == w@),
{
    crate::text::str_eq(k, w)
}

/// What the layout attribute `key` (namespace already removed) sets.
pub fn layout_attr(key: &str) -> (r: LayoutAttr)
    ensures
        r == layout_attr_spec(key@),
{
    if is(key, "id") {
        LayoutAttr::Id
    } else if is(key, "textColor") {
        LayoutAttr::TextColor
    } else if is(key, "textSize") {
        LayoutAttr::TextSize
    } else if is(key, "fontFamily") {
        LayoutAttr::FontFamily
    } else if is(key, "background") || is(key, "backgroundTint") {
        LayoutAttr::Background
    } else if is(key, "src") || is(key, "srcCompat") {
        LayoutAttr::Src
    } else if is(key, "padding") {
        LayoutAttr::Padding
    } else if is(key, "paddingTop") || is(key, "paddingVertical") {
        LayoutAttr::PaddingTop
    } else if is(key, "paddingBottom") {
        LayoutAttr::PaddingBottom
    } else if is(key, "paddingStart") || is(key, "paddingLeft") || is(key, "paddingHorizontal") {
        LayoutAttr::PaddingStart
    } else if is(key, "paddingEnd") || is(key, "paddingRight") {
        LayoutAttr::PaddingEnd
    } else {
        LayoutAttr::Other
    }
}

pub open spec fn or_base(v: Option<i32>, base: i32) -> i32 {
    match v {
        Some(x) => x,
        None => base,
    }
}

/// The padding of a view as [top, end, bottom, start]: known when the
/// view sets `padding`, a top or a start padding; each side falls back
/// to `padding`, else 0.
pub open spec fn padding_spec(
    all: Option<i32>,
    top: Option<i32>,
    bottom: Option<i32>,
    start: Option<i32>,
    end: Option<i32>,
) -> Option<(i32, i32, i32, i32)> {
    if all is Some || top is Some || start is Some {
        let base = or_base(all, 0);
        Some((or_base(top, base), or_base(end, base), or_base(bottom, base), or_base(start, base)))
    } else {
        None
    }
}

pub fn padding_of(
    all: Option<i32>,
    top: Option<i32>,
    bottom: Option<i32>,
    start: Option<i32>,
    end: Option<i32>,
) -> (r: Option<[i32; 4]>)
    ensures
        match padding_spec(all, top, bottom, start, end) {
            Some((t, e, b, s)) => r matches Some(p) && p@ == seq![t, e, b, s],
            None => r is None,
        },
{
    if all.is_some() || top.is_some() || start.is_some() {
        let base = match all {
            Some(x) => x,
            None => 0,
        };
        let t = match top {
            Some(x) => x,
            None => base,
        };
        let e = match end {
            Some(x) => x,
            None => base,
        };
        let b = match bottom {
            Some(x) => x,
            None => base,
        };
        let s = match start {
            Some(x) => x,
            None => base,
        };
        let p = [t, e, b, s];
        assert(p@ =~= seq![t, e, b, s]);
        Some(p)
    } else {
        None
    }
}

// ---------------------------------------------------------------------------
// Layout files
// ---------------------------------------------------------------------------

/// One view of a layout file: its id, and for each property the value, as
/// written, of the last attribute of its tag that sets it. Dimensions stay
/// text here; reading them as numbers is the caller's part.
pub struct LayoutView {
    pub id: String,
    pub text_color: Option<String>,
    pub text_size: Option<String>,
    pub font_family: Option<String>,
    pub background: Option<String>,
    pub src: Option<String>,
    pub padding: Option<String>,
    pub padding_top: Option<String>,
    pub padding_bottom: Option<String>,
    pub padding_start: Option<String>,
    pub padding_end: Option<String>,
}

pub type AttrsView = Seq<(Seq<char>, Seq<char>)>;

/// The kind of property an attribute sets, by its name.
pub open spec fn attr_kind(key: Seq<char>) -> LayoutAttr {
    layout_attr_spec(layout_key_spec(key))
}

/// The value of the last attribute of `attrs` that sets `kind`.
pub open spec fn last_attr(attrs: AttrsView, kind: LayoutAttr) -> Option<Seq<char>>
    decreases attrs.len(),
{
    if attrs.len() == 0 {
        None
    } else if attr_kind(attrs.last().0) == kind {
        Some(attrs.last().1)
    } else {
        last_attr(attrs.drop_last(), kind)
    }
}

/// The id of a tag: its last `id` attribute without the id prefix, or
/// empty.
pub open spec fn tag_id(attrs: AttrsView) -> Seq<char> {
    match last_attr(attrs, LayoutAttr::Id) {
        Some(v) => view_id_spec(v),
        None => seq![],
    }
}

/// Every property of `v` holds the last value its tag gives it.
pub open spec fn props_match(v: LayoutView, attrs: AttrsView) -> bool {
    &&& opt_view(v.text_color) == last_attr(attrs, LayoutAttr::TextColor)
    &&& opt_view(v.text_size) == last_attr(attrs, LayoutAttr::TextSize)
    &&& opt_view(v.font_family) == last_attr(attrs, LayoutAttr::FontFamily)
    &&& opt_view(v.background) == last_attr(attrs, LayoutAttr::Background)
    &&& opt_view(v.src) == last_attr(attrs, LayoutAttr::Src)
    &&& opt_view(v.padding) == last_attr(attrs, LayoutAttr::Padding)
    &&& opt_view(v.padding_top) == last_attr(attrs, LayoutAttr::PaddingTop)
    &&& opt_view(v.padding_bottom) == last_attr(attrs, LayoutAttr::PaddingBottom)
    &&& opt_view(v.padding_start) == last_attr(attrs, LayoutAttr::PaddingStart)
    &&& opt_view(v.padding_end) == last_attr(attrs, LayoutAttr::PaddingEnd)
}

/// The view a tag describes.
pub open spec fn view_matches(v: LayoutView, attrs: AttrsView) -> bool {
    v.id@ == tag_id(attrs) && props_match(v, attrs)
}

/// The attributes of the tags that carry a non-empty id, in document
/// order.
pub open spec fn id_tags(tags: Seq<TagView>) -> Seq<AttrsView>
    decreases tags.len(),
{
    if tags.len() == 0 {
        seq![]
    } else {
        let rest = id_tags(tags.drop_last());
        if tag_id(tags.last().1).len() > 0 {
            rest.push(tags.last().1)
        } else {
            rest
        }
    }
}

fn copy_s(s: &String) -> (r: String)
    ensures
        r@ == s@,
{
    s.clone()
}

/// The view one tag describes.
fn tag_layout(attrs: &Vec<(String, String)>) -> (r: LayoutView)
    ensures
        view_matches(r, attr_views(attrs@)),
{
    let ghost av = attr_views(attrs@);
    let mut v = LayoutView {
        id: String::new(),
        text_color: None,
        text_size: None,
        font_family: None,
        background: None,
        src: None,
        padding: None,
        padding_top: None,
        padding_bottom: None,
        padding_start: None,
        padding_end: None,
    };
    let mut idv: Option<String> = None;
    let mut j: usize = 0;
    assert(av.take(0) =~= Seq::<(Seq<char>, Seq<char>)>::empty());
    while j < attrs.len()
        invariant
            j <= attrs@.len(),
            av == attr_views(attrs@),
            props_match(v, av.take(j as int)),
            opt_view(idv) == last_attr(av.take(j as int), LayoutAttr::Id),
        decreases attrs@.len() - j,
    {
        let a = &attrs[j];
        let ghost pre = av.take(j as int);
        let ghost post = av.take(j + 1);
        proof {
            assert(post.drop_last() =~= pre);
            assert(post.last() == (a.0@, a.1@));
        }
        let key = layout_key(a.0.as_str());
        let kind = layout_attr(key.as_str());
        let val = copy_s(&a.1);
        match kind {
            LayoutAttr::Id => idv = Some(val),
            LayoutAttr::TextColor => v.text_color = Some(val),
            LayoutAttr::TextSize => v.text_size = Some(val),
            LayoutAttr::FontFamily => v.font_family = Some(val),
            LayoutAttr::Background => v.background = Some(val),
            LayoutAttr::Src => v.src = Some(val),
            LayoutAttr::Padding => v.padding = Some(val),
            LayoutAttr::PaddingTop => v.padding_top = Some(val),
            LayoutAttr::PaddingBottom => v.padding_bottom = Some(val),
            LayoutAttr::PaddingStart => v.padding_start = Some(val),
            LayoutAttr::PaddingEnd => v.padding_end = Some(val),
            LayoutAttr::Other => {},
        }
        j = j + 1;
    }
    assert(av.take(j as int) =~= av);
    v.id = match idv {
        Some(x) => view_id(x.as_str()),
        None => String::new(),
    };
    v
}

/// The views of a layout file: one for each start or empty-element tag
/// that carries a non-empty id, in document order (a later view of the
/// same id is meant to replace an earlier one).
pub fn layout_views(xml: &str) -> (r: Vec<LayoutView>)
    ensures
        r@.len() == id_tags(xml_tags_of(xml@)).len(),
        forall|i: int|
            0 <= i < r@.len() ==> view_matches(#[trigger] r@[i], id_tags(xml_tags_of(xml@))[i]),
{
    let tags = read_xml_tags(xml);
    let ghost tv = tag_views(tags@);
    let mut out: Vec<LayoutView> = Vec::new();
    let mut i: usize = 0;
    assert(tv.take(0) =~= Seq::<TagView>::empty());
    while i < tags.len()
        invariant
            i <= tags@.len(),
            tv == tag_views(tags@),
            tv == xml_tags_of(xml@),
            out@.len() == id_tags(tv.take(i as int)).len(),
            forall|k: int|
                0 <= k < out@.len() ==> view_matches(#[trigger] out@[k], id_tags(tv.take(i as int))[k]),
        decreases tags@.len() - i,
    {
        let t = &tags[i];
        proof {
            assert(tv.take(i + 1).drop_last() =~= tv.take(i as int));
            assert(tv.take(i + 1).last() == (t.name@, attr_views(t.attrs@)));
        }
        let v = tag_layout(&t.attrs);
        if v.id.as_str().unicode_len() > 0 {
            out.push(v);
        }
        i = i + 1;
    }
    assert(tv.take(i as int) =~= tv);
    out
}

// ---------------------------------------------------------------------------
// Vector drawables
// ---------------------------------------------------------------------------

pub type TagView = (Seq<char>, Seq<(Seq<char>, Seq<char>)>);

pub open spec fn is_vector_tag(name: Seq<char>) -> bool {
    name == "vector"@ || name == "animated-vector"@
}

/// The non-empty path data of one tag's attributes, in order.
pub open spec fn path_data(attrs: Seq<(Seq<char>, Seq<char>)>) -> Seq<Seq<char>>
    decreases attrs.len(),
{
    if attrs.len() == 0 {
        seq![]
    } else {
        let a = attrs.last();
        let prev = path_data(attrs.drop_last());
        if (a.0 == "android:pathData"@ || a.0 == "pathData"@) && a.1.len() > 0 {
            prev.push(a.1)
        } else {
            prev
        }
    }
}

/// The path data of the `path` tags among `tags`, in document order.
pub open spec fn all_paths(tags: Seq<TagView>) -> Seq<Seq<char>>
    decreases tags.len(),
{
    if tags.len() == 0 {
        seq![]
    } else {
        let t = tags.last();
        all_paths(tags.drop_last()) + if t.0 == "path"@ {
            path_data(t.1)
        } else {
            seq![]
        }
    }
}

pub open spec fn has_vector_tag(tags: Seq<TagView>) -> bool {
    exists|i: int| 0 <= i < tags.len() && is_vector_tag(#[trigger] tags[i].0)
}

/// The path data of a vector drawable; `None` for a document that is not
/// one or that draws no path.
pub open spec fn vector_paths_spec(tags: Seq<TagView>) -> Option<Seq<Seq<char>>> {
    if has_vector_tag(tags) && all_paths(tags).len() > 0 {
        Some(all_paths(tags))
    } else {
        None
    }
}

fn tag_paths(t: &XmlTag, out: &mut Vec<String>)
    ensures
        strings_view(final(out)@) == strings_view(old(out)@) + path_data(attr_views(t.attrs@)),
{
    let ghost av = attr_views(t.attrs@);
    let mut i: usize = 0;
    assert(av.take(0) =~= Seq::<(Seq<char>, Seq<char>)>::empty());
    let ghost start = strings_view(out@);
    while i < t.attrs.len()
        invariant
            i <= t.attrs@.len(),
            av == attr_views(t.attrs@),
            strings_view(out@) == start + path_data(av.take(i as int)),
        decreases t.attrs@.len() - i,
    {
        let a = &t.attrs[i];
        proof {
            assert(av.take(i + 1).drop_last() =~= av.take(i as int));
            assert(av.take(i + 1).last() == (a.0@, a.1@));
        }
        if (is(a.0.as_str(), "android:pathData") || is(a.0.as_str(), "pathData")) && a.1.as_str().unicode_len() > 0 {
            let ghost before = out@;
            out.push(a.1.clone());
            assert(strings_view(out@) =~= strings_view(before).push(a.1@));
        }
        i = i + 1;
    }
    assert(av.take(i as int) =~= av);
}

/// The path data of a vector drawable document, if it is one.
pub fn extract_vector_paths(xml: &str) -> (r: Option<Vec<String>>)
    ensures
        match vector_paths_spec(xml_tags_of(xml@)) {
            Some(ps) => r matches Some(v) && strings_view(v@) == ps,
            None => r is None,
        },
{
    let tags = read_xml_tags(xml);
    let ghost tv = tag_views(tags@);
    let mut paths: Vec<String> = Vec::new();
    let mut is_vector = false;
    let mut i: usize = 0;
    assert(tv.take(0) =~= Seq::<TagView>::empty());
    while i < tags.len()
        invariant
            i <= tags@.len(),
            tv == tag_views(tags@),
            tv == xml_tags_of(xml@),
            strings_view(paths@) == all_paths(tv.take(i as int)),
            is_vector == has_vector_tag(tv.take(i as int)),
        decreases tags@.len() - i,
    {
        let t = &tags[i];
        proof {
            assert(tv.take(i + 1).drop_last() =~= tv.take(i as int));
            assert(tv.take(i + 1).last() == (t.name@, attr_views(t.attrs@)));
        }
        let name = t.name.as_str();
        if is(name, "vector") || is(name, "animated-vector") {
            is_vector = true;
        }
        proof {
            let a = tv.take(i as int);
            let b = tv.take(i + 1);
            if has_vector_tag(b) {
                let j = choose|j: int| 0 <= j < b.len() && is_vector_tag(#[trigger] b[j].0);
                if j < i {
                    assert(a[j] == b[j]);
                }
            }
            if has_vector_tag(a) {
                let j = choose|j: int| 0 <= j < a.len() && is_vector_tag(#[trigger] a[j].0);
                assert(b[j] == a[j]);
            }
            if is_vector_tag(t.name@) {
                assert(b[i as int].0 == t.name@);
            }
        }
        if is(name, "path") {
            tag_paths(t, &mut paths);
        } else {
            assert(all_paths(tv.take(i + 1)) =~= all_paths(tv.take(i as int)));
        }
        i = i + 1;
    }
    assert(tv.take(i as int) =~= tv);
    if is_vector && paths.len() > 0 {
        Some(paths)
    } else {
        None
    }
}

} // verus!
