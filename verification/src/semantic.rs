//! The semantic description of a screen from a uiautomator dump: full node
//! records, element identities and types, and id disambiguation.
use vstd::prelude::*;
use crate::text::{
    chars_of, chars_views, copy_string, decimal_nat, ends_with, join, join_chars, parse_i32,
    parse_i32_exec, push_str, push_u64, replace, replace_exec, split, split_vec, str_eq, string_of,
    strings_view, lemma_deep_view_chars, copy_range, lines, lines_vec, trim, trim_vec,
};
use crate::ui_parser::{
    attr_last, attr_or_empty, attr_true, attr_value, bounds_numbers, parse_bounds_numbers,
    short_id, short_id_spec,
};
use crate::xml::{XmlTag, attr_views, read_xml_tags, tag_views, xml_tags_of};

verus! {

// ---------------------------------------------------------------------------
// Full node records
// ---------------------------------------------------------------------------

pub struct FullNode {
    pub text: String,
    pub content_desc: String,
    pub resource_id: String,
    pub class_name: String,
    pub package: String,
    pub clickable: bool,
    pub focusable: bool,
    pub checkable: bool,
    pub checked: bool,
    pub enabled: bool,
    pub selected: bool,
    pub scrollable: bool,
    pub bounds: String,
    pub index: i32,
}

pub struct FullNodeView {
    pub text: Seq<char>,
    pub content_desc: Seq<char>,
    pub resource_id: Seq<char>,
    pub class_name: Seq<char>,
    pub package: Seq<char>,
    pub clickable: bool,
    pub focusable: bool,
    pub checkable: bool,
    pub checked: bool,
    pub enabled: bool,
    pub selected: bool,
    pub scrollable: bool,
    pub bounds: Seq<char>,
    pub index: i32,
}

pub open spec fn full_view(n: FullNode) -> FullNodeView {
    FullNodeView {
        text: n.text@,
        content_desc: n.content_desc@,
        resource_id: n.resource_id@,
        class_name: n.class_name@,
        package: n.package@,
        clickable: n.clickable,
        focusable: n.focusable,
        checkable: n.checkable,
        checked: n.checked,
        enabled: n.enabled,
        selected: n.selected,
        scrollable: n.scrollable,
        bounds: n.bounds@,
        index: n.index,
    }
}

pub open spec fn full_views(s: Seq<FullNode>) -> Seq<FullNodeView> {
    s.map_values(|n: FullNode| full_view(n))
}

/// The record of one `node` tag: each attribute's last value; flags are
/// `true` only when written so, except `enabled`, which holds unless it is
/// written otherwise; an index that does not parse is 0.
pub open spec fn full_node_of(a: Seq<(Seq<char>, Seq<char>)>) -> FullNodeView {
    FullNodeView {
        text: attr_or_empty(a, "text"@),
        content_desc: attr_or_empty(a, "content-desc"@),
        resource_id: attr_or_empty(a, "resource-id"@),
        class_name: attr_or_empty(a, "class"@),
        package: attr_or_empty(a, "package"@),
        clickable: attr_true(a, "clickable"@),
        focusable: attr_true(a, "focusable"@),
        checkable: attr_true(a, "checkable"@),
        checked: attr_true(a, "checked"@),
        enabled: attr_last(a, "enabled"@) is None || attr_true(a, "enabled"@),
        selected: attr_true(a, "selected"@),
        scrollable: attr_true(a, "scrollable"@),
        bounds: attr_or_empty(a, "bounds"@),
        index: match attr_last(a, "index"@) {
            Some(v) => match parse_i32(v) {
                Some(i) => i,
                None => 0,
            },
            None => 0,
        },
    }
}

fn attr_string(attrs: &Vec<(String, String)>, key: &str) -> (r: String)
    ensures
        r@ == attr_or_empty(attr_views(attrs@), key@),
{
    match attr_value(attrs, key) {
        Some(v) => v,
        None => String::new(),
    }
}

fn attr_flag(attrs: &Vec<(String, String)>, key: &str, absent: bool) -> (r: bool)
    ensures
        r == match attr_last(attr_views(attrs@), key@) {
            Some(v) => v == "true"@,
            None => absent,
        },
{
    match attr_value(attrs, key) {
        Some(v) => str_eq(v.as_str(), "true"),
        None => absent,
    }
}

pub fn parse_full_node(attrs: &Vec<(String, String)>) -> (r: FullNode)
    ensures
        full_view(r) == full_node_of(attr_views(attrs@)),
{
    let index = match attr_value(attrs, "index") {
        Some(v) => {
            let c = chars_of(v.as_str());
            match parse_i32_exec(&c) {
                Some(i) => i,
                None => 0,
            }
        },
        None => 0,
    };
    FullNode {
        text: attr_string(attrs, "text"),
        content_desc: attr_string(attrs, "content-desc"),
        resource_id: attr_string(attrs, "resource-id"),
        class_name: attr_string(attrs, "class"),
        package: attr_string(attrs, "package"),
        clickable: attr_flag(attrs, "clickable", false),
        focusable: attr_flag(attrs, "focusable", false),
        checkable: attr_flag(attrs, "checkable", false),
        checked: attr_flag(attrs, "checked", false),
        enabled: attr_flag(attrs, "enabled", true),
        selected: attr_flag(attrs, "selected", false),
        scrollable: attr_flag(attrs, "scrollable", false),
        bounds: attr_string(attrs, "bounds"),
        index,
    }
}

/// The records of the `node` tags, in document order.
pub open spec fn full_nodes_of(tags: Seq<(Seq<char>, Seq<(Seq<char>, Seq<char>)>)>) -> Seq<
    FullNodeView,
>
    decreases tags.len(),
{
    if tags.len() == 0 {
        seq![]
    } else {
        let rest = full_nodes_of(tags.drop_last());
        if tags.last().0 == "node"@ {
            rest.push(full_node_of(tags.last().1))
        } else {
            rest
        }
    }
}

/// The node records of the tags read from a dump.
pub fn full_nodes_from_tags(tags: &Vec<XmlTag>) -> (r: Vec<FullNode>)
    ensures
        full_views(r@) == full_nodes_of(tag_views(tags@)),
{
    let ghost tv = tag_views(tags@);
    let mut out: Vec<FullNode> = Vec::new();
    let mut i: usize = 0;
    assert(full_views(out@) =~= Seq::<FullNodeView>::empty());
    while i < tags.len()
        invariant
            i <= tags@.len(),
            tv == tag_views(tags@),
            full_views(out@) == full_nodes_of(tv.take(i as int)),
        decreases tags@.len() - i,
    {
        assert(tv.take(i + 1).drop_last() =~= tv.take(i as int));
        let ghost before = full_views(out@);
        if str_eq(tags[i].name.as_str(), "node") {
            let n = parse_full_node(&tags[i].attrs);
            out.push(n);
            assert(full_views(out@) =~= before.push(full_view(out@.last())));
        }
        i = i + 1;
    }
    assert(tv.take(i as int) =~= tv);
    out
}

/// Every `node` of a uiautomator dump.
pub fn parse_full(xml: &str) -> (r: Vec<FullNode>)
    ensures
        full_views(r@) == full_nodes_of(xml_tags_of(xml@)),
{
    let tags = read_xml_tags(xml);
    full_nodes_from_tags(&tags)
}

// ---------------------------------------------------------------------------
// Text helpers
// ---------------------------------------------------------------------------

/// The five predefined XML entities decoded, `&amp;` first.
pub open spec fn decode_entities_spec(s: Seq<char>) -> Seq<char> {
    replace(
        replace(
            replace(replace(replace(s, "&amp;"@, "&"@), "&lt;"@, "<"@), "&gt;"@, ">"@),
            "&quot;"@,
            "\""@,
        ),
        "&apos;"@,
        "'"@,
    )
}

pub fn decode_entities(s: &str) -> (r: String)
    ensures
        r@ == decode_entities_spec(s@),
{
    let c = chars_of(s);
    let a = replace_exec(&c, &chars_of("&amp;"), &chars_of("&"));
    let b = replace_exec(&a, &chars_of("&lt;"), &chars_of("<"));
    let d = replace_exec(&b, &chars_of("&gt;"), &chars_of(">"));
    let e = replace_exec(&d, &chars_of("&quot;"), &chars_of("\""));
    let f = replace_exec(&e, &chars_of("&apos;"), &chars_of("'"));
    string_of(&f)
}

/// Unicode `Alphabetic` or `Numeric`, as `char::is_alphanumeric` decides.
pub uninterp spec fn alphanumeric(c: char) -> bool;

/// `char::is_alphanumeric` (see `alphanumeric`).
#[verifier::external_body]
fn char_is_alphanumeric(c: char) -> (r: bool)
    ensures
        r == alphanumeric(c),
{
    c.is_alphanumeric()
}

/// `char::to_ascii_lowercase`
pub open spec fn ascii_lower(c: char) -> char {
    if 'A' <= c && c <= 'Z' {
        ((c as u32) + 32) as char
    } else {
        c
    }
}

/// A letter or digit in ASCII lower case; anything else an underscore.
pub open spec fn snake_char(c: char) -> char {
    if alphanumeric(c) {
        ascii_lower(c)
    } else {
        '_'
    }
}

pub open spec fn nonempty_parts(ps: Seq<Seq<char>>) -> Seq<Seq<char>>
    decreases ps.len(),
{
    if ps.len() == 0 {
        seq![]
    } else if ps.last().len() > 0 {
        nonempty_parts(ps.drop_last()).push(ps.last())
    } else {
        nonempty_parts(ps.drop_last())
    }
}

/// Letters and digits kept (lower-cased), every other run of characters
/// one underscore, none at the ends.
pub open spec fn snake_spec(s: Seq<char>) -> Seq<char> {
    join(nonempty_parts(split(s.map_values(|c: char| snake_char(c)), seq!['_'])), seq!['_'])
}

fn lower_ascii(c: char) -> (r: char)
    ensures
        r == ascii_lower(c),
{
    if 'A' <= c && c <= 'Z' {
        let b: u8 = c as u8;
        assert(b as int == c as int);
        let l = (b + 32) as char;
        assert(l == ((c as u32) + 32) as char);
        l
    } else {
        c
    }
}

fn snake_exec(s: &[char]) -> (r: Vec<char>)
    ensures
        r@ == snake_spec(s@),
{
    let mut m: Vec<char> = Vec::new();
    let mut i: usize = 0;
    while i < s.len()
        invariant
            i <= s@.len(),
            m@ == s@.take(i as int).map_values(|c: char| snake_char(c)),
        decreases s@.len() - i,
    {
        let c = s[i];
        let sc = if char_is_alphanumeric(c) {
            lower_ascii(c)
        } else {
            '_'
        };
        m.push(sc);
        assert(m@ =~= s@.take(i + 1).map_values(|c: char| snake_char(c)));
        i = i + 1;
    }
    assert(s@.take(i as int) =~= s@);
    let us: Vec<char> = vec!['_'];
    assert(us@ =~= seq!['_']);
    let parts = split_vec(&m, &us);
    let ghost pv = parts.deep_view();
    let mut kept: Vec<Vec<char>> = Vec::new();
    let mut j: usize = 0;
    assert(pv.len() == parts@.len());
    while j < parts.len()
        invariant
            j <= parts@.len(),
            pv == parts.deep_view(),
            pv.len() == parts@.len(),
            chars_views(kept@) == nonempty_parts(pv.take(j as int)),
        decreases parts@.len() - j,
    {
        proof {
            lemma_deep_view_chars(parts[j as int]);
        }
        assert(pv.take(j + 1).drop_last() =~= pv.take(j as int));
        let ghost before = chars_views(kept@);
        if parts[j].len() > 0 {
            kept.push(crate::text::copy_range(&parts[j], 0, parts[j].len()));
            assert(parts[j as int]@.subrange(0, parts[j as int]@.len() as int) =~= parts[j as int]@);
            assert(chars_views(kept@) =~= before.push(pv[j as int]));
        }
        j = j + 1;
    }
    assert(pv.take(j as int) =~= pv);
    let r = join_chars(&kept, "_");
    assert(seq!['_'] =~= "_"@) by {
        reveal_strlit("_");
    }
    r
}

/// `to_snake`: the snake-case form of a resource id.
pub fn to_snake(s: &str) -> (r: String)
    ensures
        r@ == snake_spec(s@),
{
    let c = chars_of(s);
    string_of(&snake_exec(&c))
}

/// `slugify`: the snake-case form of text with its entities decoded.
pub fn slugify(s: &str) -> (r: String)
    ensures
        r@ == snake_spec(decode_entities_spec(s@)),
{
    let d = decode_entities(s);
    to_snake(d.as_str())
}

// ---------------------------------------------------------------------------
// Classes and types
// ---------------------------------------------------------------------------

/// The index of the last `.` in `s[..k]`.
pub open spec fn last_dot(s: Seq<char>, k: nat) -> Option<nat>
    decreases k,
{
    if k == 0 || k > s.len() {
        None
    } else if s[k - 1] == '.' {
        Some((k - 1) as nat)
    } else {
        last_dot(s, (k - 1) as nat)
    }
}

/// The simple name of a class: what follows its last `.`.
pub open spec fn simple_class(s: Seq<char>) -> Seq<char> {
    match last_dot(s, s.len()) {
        Some(k) => s.skip(k as int + 1),
        None => s,
    }
}

pub fn simple_class_name(s: &str) -> (r: String)
    ensures
        r@ == simple_class(s@),
{
    let c = chars_of(s);
    let mut k: usize = c.len();
    while k > 0 && c[k - 1] != '.'
        invariant
            k <= c@.len(),
            c@ == s@,
            last_dot(s@, s@.len()) == last_dot(s@, k as nat),
        decreases k,
    {
        k = k - 1;
    }
    if k == 0 {
        copy_string_of(s)
    } else {
        let rest = crate::text::copy_range(&c, k, c.len());
        assert(rest@ =~= s@.skip(k as int));
        string_of(&rest)
    }
}

fn copy_string_of(s: &str) -> (r: String)
    ensures
        r@ == s@,
{
    String::from_str(s)
}

/// The element type of a node by its class and whether it is clickable.
pub open spec fn classify_spec(class_name: Seq<char>, clickable: bool) -> Seq<char> {
    let short = simple_class(class_name);
    if short == "TextView"@ {
        if clickable {
            "button"@
        } else {
            "text"@
        }
    } else if short == "EditText"@ {
        "input"@
    } else if short == "ImageView"@ {
        "image"@
    } else if short == "ImageButton"@ || short == "Button"@ {
        "button"@
    } else if short == "CheckBox"@ || short == "RadioButton"@ || short == "Switch"@ || short
        == "ToggleButton"@ {
        "toggle"@
    } else if short == "RecyclerView"@ || short == "ListView"@ || short == "ScrollView"@ {
        "list"@
    } else if short == "HorizontalScrollView"@ {
        "scroll"@
    } else if short == "ViewPager"@ {
        "pager"@
    } else if short == "FrameLayout"@ || short == "LinearLayout"@ || short == "ViewGroup"@ {
        if clickable {
            "button"@
        } else {
            "container"@
        }
    } else if clickable {
        "button"@
    } else {
        "view"@
    }
}

fn s(x: &str) -> (r: String)
    ensures
        r@ == x@,
{
    String::from_str(x)
}

pub fn classify_type(class_name: &str, clickable: bool) -> (r: String)
    ensures
        r@ == classify_spec(class_name@, clickable),
{
    let short = simple_class_name(class_name);
    let t = short.as_str();
    if str_eq(t, "TextView") {
        if clickable {
            s("button")
        } else {
            s("text")
        }
    } else if str_eq(t, "EditText") {
        s("input")
    } else if str_eq(t, "ImageView") {
        s("image")
    } else if str_eq(t, "ImageButton") || str_eq(t, "Button") {
        s("button")
    } else if str_eq(t, "CheckBox") || str_eq(t, "RadioButton") || str_eq(t, "Switch") || str_eq(
        t,
        "ToggleButton",
    ) {
        s("toggle")
    } else if str_eq(t, "RecyclerView") || str_eq(t, "ListView") || str_eq(t, "ScrollView") {
        s("list")
    } else if str_eq(t, "HorizontalScrollView") {
        s("scroll")
    } else if str_eq(t, "ViewPager") {
        s("pager")
    } else if str_eq(t, "FrameLayout") || str_eq(t, "LinearLayout") || str_eq(t, "ViewGroup") {
        if clickable {
            s("button")
        } else {
            s("container")
        }
    } else if clickable {
        s("button")
    } else {
        s("view")
    }
}

/// A framework wrapper or a full-screen host rather than content.
pub open spec fn framework_container_spec(sid: Seq<char>, class_name: Seq<char>) -> bool {
    ||| sid == "action_bar_root"@
    ||| sid == "content"@
    ||| sid == "statusBarBackground"@
    ||| sid == "navigationBarBackground"@
    ||| ends_with(sid, "NavigationHost"@)
    ||| ends_with(sid, "Container"@)
    ||| ((simple_class(class_name) == "FrameLayout"@ || simple_class(class_name) == "ViewGroup"@)
        && sid.len() > 0)
}

fn ends_with_exec(a: &str, b: &str) -> (r: bool)
    ensures
        r == ends_with(a@, b@),
{
    let ac = chars_of(a);
    let bc = chars_of(b);
    if bc.len() > ac.len() {
        return false;
    }
    crate::text::matches_at_exec(&ac, &bc, ac.len() - bc.len())
}

pub fn is_framework_container(short_id: &str, class_name: &str) -> (r: bool)
    ensures
        r == framework_container_spec(short_id@, class_name@),
{
    if str_eq(short_id, "action_bar_root") || str_eq(short_id, "content") || str_eq(
        short_id,
        "statusBarBackground",
    ) || str_eq(short_id, "navigationBarBackground") {
        return true;
    }
    if ends_with_exec(short_id, "NavigationHost") || ends_with_exec(short_id, "Container") {
        return true;
    }
    let sc = simple_class_name(class_name);
    (str_eq(sc.as_str(), "FrameLayout") || str_eq(sc.as_str(), "ViewGroup")) && !short_id.is_empty()
}


// ---------------------------------------------------------------------------
// Element identity
// ---------------------------------------------------------------------------

/// What the semantic element of a node is, apart from its geometry in dp
/// (which needs the screen density) and its styling (which comes from the
/// app's resources).
pub struct ElementCore {
    pub id: String,
    pub platform_id: Option<String>,
    pub elem_type: String,
    pub content: Option<String>,
    pub clickable: bool,
    pub enabled: bool,
    pub accessible: bool,
    pub a11y_label: Option<String>,
    pub a11y_id: Option<String>,
}

pub struct CoreView {
    pub id: Seq<char>,
    pub platform_id: Option<Seq<char>>,
    pub elem_type: Seq<char>,
    pub content: Option<Seq<char>>,
    pub clickable: bool,
    pub enabled: bool,
    pub accessible: bool,
    pub a11y_label: Option<Seq<char>>,
    pub a11y_id: Option<Seq<char>>,
}

pub open spec fn core_view(c: ElementCore) -> CoreView {
    CoreView {
        id: c.id@,
        platform_id: crate::text::opt_view(c.platform_id),
        elem_type: c.elem_type@,
        content: crate::text::opt_view(c.content),
        clickable: c.clickable,
        enabled: c.enabled,
        accessible: c.accessible,
        a11y_label: crate::text::opt_view(c.a11y_label),
        a11y_id: crate::text::opt_view(c.a11y_id),
    }
}

/// The element a node becomes, if any. Nodes with no text or description
/// need an id and must not be bare framework containers (unless
/// clickable); every element needs bounds with two corners. The content is
/// the decoded text, else the decoded description; the id is the slug of
/// the content, else the snake-case resource id.
pub open spec fn element_core_of(n: FullNodeView) -> Option<CoreView> {
    let sid = short_id_spec(n.resource_id);
    let has_label = n.text.len() > 0 || n.content_desc.len() > 0;
    if !has_label && !n.clickable && !n.focusable && sid.len() == 0 {
        None
    } else if !has_label && sid.len() == 0 {
        None
    } else if !has_label && !n.clickable && framework_container_spec(sid, n.class_name) {
        None
    } else if bounds_numbers(n.bounds).len() < 4 {
        None
    } else {
        let content: Option<Seq<char>> = if n.text.len() > 0 {
            Some(decode_entities_spec(n.text))
        } else if n.content_desc.len() > 0 {
            Some(decode_entities_spec(n.content_desc))
        } else {
            None
        };
        let platform_id: Option<Seq<char>> = if sid.len() > 0 {
            Some(sid)
        } else {
            None
        };
        let id = match content {
            Some(c) => snake_spec(decode_entities_spec(c)),
            None => if sid.len() > 0 {
                snake_spec(sid)
            } else if n.content_desc.len() > 0 {
                snake_spec(decode_entities_spec(n.content_desc))
            } else {
                seq![]
            },
        };
        Some(
            CoreView {
                id,
                platform_id,
                elem_type: classify_spec(n.class_name, n.clickable),
                content,
                clickable: n.clickable,
                enabled: n.enabled,
                accessible: n.focusable || n.clickable || n.content_desc.len() > 0,
                a11y_label: if n.content_desc.len() > 0 {
                    Some(decode_entities_spec(n.content_desc))
                } else {
                    None
                },
                a11y_id: platform_id,
            },
        )
    }
}

/// An element keeps the node's state as it is: it is enabled exactly when
/// the node is, and clickable exactly when the node is, whatever else the
/// node says.
pub proof fn law_element_keeps_node_state(n: FullNodeView)
    ensures
        element_core_of(n) matches Some(c) ==> c.enabled == n.enabled && c.clickable == n.clickable,
{
}

/// The element a node becomes (see `element_core_of`).
pub fn build_element(node: &FullNode) -> (r: Option<ElementCore>)
    ensures
        match r {
            Some(c) => element_core_of(full_view(*node)) == Some(core_view(c)),
            None => element_core_of(full_view(*node)) is None,
        },
{
    let sid = short_id(node.resource_id.as_str());
    let has_label = !node.text.as_str().is_empty() || !node.content_desc.as_str().is_empty();
    if !has_label && !node.clickable && !node.focusable && sid.as_str().is_empty() {
        return None;
    }
    if !has_label && sid.as_str().is_empty() {
        return None;
    }
    if !has_label && !node.clickable && is_framework_container(sid.as_str(), node.class_name.as_str()) {
        return None;
    }
    let nums = parse_bounds_numbers(node.bounds.as_str());
    if nums.len() < 4 {
        return None;
    }
    let content: Option<String> = if !node.text.as_str().is_empty() {
        Some(decode_entities(node.text.as_str()))
    } else if !node.content_desc.as_str().is_empty() {
        Some(decode_entities(node.content_desc.as_str()))
    } else {
        None
    };
    let platform_id: Option<String> = if !sid.as_str().is_empty() {
        Some(copy_string(&sid))
    } else {
        None
    };
    let id = match &content {
        Some(c) => slugify(c.as_str()),
        None => if !sid.as_str().is_empty() {
            to_snake(sid.as_str())
        } else if !node.content_desc.as_str().is_empty() {
            slugify(node.content_desc.as_str())
        } else {
            String::new()
        },
    };
    let a11y_label = if !node.content_desc.as_str().is_empty() {
        Some(decode_entities(node.content_desc.as_str()))
    } else {
        None
    };
    let a11y_id = crate::text::copy_opt_string(&platform_id);
    Some(
        ElementCore {
            id,
            platform_id,
            elem_type: classify_type(node.class_name.as_str(), node.clickable),
            content,
            clickable: node.clickable,
            enabled: node.enabled,
            accessible: node.focusable || node.clickable || !node.content_desc.as_str().is_empty(),
            a11y_label,
            a11y_id,
        },
    )
}

// ---------------------------------------------------------------------------
// Unique ids
// ---------------------------------------------------------------------------

/// How many of `ids` equal `x`.
pub open spec fn count_of(ids: Seq<Seq<char>>, x: Seq<char>) -> nat
    decreases ids.len(),
{
    if ids.len() == 0 {
        0
    } else {
        count_of(ids.drop_last(), x) + if ids.last() == x {
            1nat
        } else {
            0nat
        }
    }
}

/// Ids that occur more than once get the suffix `_{k}`, `k` counting their
/// earlier occurrences; empty and unique ids stay as they are.
pub open spec fn disambiguated(ids: Seq<Seq<char>>, i: int) -> Seq<char> {
    let x = ids[i];
    if x.len() > 0 && count_of(ids, x) > 1 {
        x + "_"@ + decimal_nat(count_of(ids.take(i), x))
    } else {
        x
    }
}

fn count_exec(ids: &Vec<String>, x: &str, upto: usize) -> (r: usize)
    requires
        upto <= ids@.len(),
    ensures
        r == count_of(strings_view(ids@).take(upto as int), x@),
{
    let ghost v = strings_view(ids@);
    let mut n: usize = 0;
    let mut i: usize = 0;
    assert(v.take(0) =~= Seq::<Seq<char>>::empty());
    while i < upto
        invariant
            i <= upto <= ids@.len(),
            v == strings_view(ids@),
            n == count_of(v.take(i as int), x@),
            n <= i,
        decreases upto - i,
    {
        assert(v.take(i + 1).drop_last() =~= v.take(i as int));
        if str_eq(ids[i].as_str(), x) {
            n = n + 1;
        }
        i = i + 1;
    }
    n
}

/// Make repeated ids unique (see `disambiguated`).
pub fn disambiguate_ids(ids: &mut Vec<String>)
    ensures
        final(ids)@.len() == old(ids)@.len(),
        forall|i: int|
            0 <= i < old(ids)@.len() ==> (#[trigger] final(ids)@[i])@ == disambiguated(
                strings_view(old(ids)@),
                i,
            ),
{
    let ghost orig = strings_view(ids@);
    let snapshot: Vec<String> = clone_all(ids);
    let n = ids.len();
    let mut i: usize = 0;
    while i < n
        invariant
            n == ids@.len(),
            n == snapshot@.len(),
            i <= n,
            orig == strings_view(snapshot@),
            orig.len() == n,
            forall|k: int| i <= k < n ==> (#[trigger] ids@[k])@ == orig[k],
            forall|k: int| 0 <= k < i ==> (#[trigger] ids@[k])@ == disambiguated(orig, k),
        decreases n - i,
    {
        let x = snapshot[i].as_str();
        assert(x@ == orig[i as int]);
        if !x.is_empty() {
            let total = count_exec(&snapshot, x, n);
            assert(orig.take(n as int) =~= orig);
            if total > 1 {
                let before = count_exec(&snapshot, x, i);
                let mut v = chars_of(x);
                push_str(&mut v, "_");
                push_u64(&mut v, before as u64);
                ids.set(i, string_of(&v));
            }
        }
        i = i + 1;
    }
}

fn clone_all(v: &Vec<String>) -> (r: Vec<String>)
    ensures
        strings_view(r@) == strings_view(v@),
        r@.len() == v@.len(),
{
    let mut r: Vec<String> = Vec::new();
    let mut i: usize = 0;
    while i < v.len()
        invariant
            i <= v@.len(),
            r@.len() == i,
            forall|k: int| 0 <= k < i ==> (#[trigger] r@[k])@ == v@[k]@,
        decreases v@.len() - i,
    {
        r.push(copy_string(&v[i]));
        i = i + 1;
    }
    assert(strings_view(r@) =~= strings_view(v@));
    r
}

// ---------------------------------------------------------------------------
// The resumed activity
// ---------------------------------------------------------------------------

/// Index of the first space or `}` in `s` from `i` on.
pub open spec fn first_stop(s: Seq<char>, i: nat) -> Option<nat>
    decreases s.len() - i,
{
    if i >= s.len() {
        None
    } else if s[i as int] == ' ' || s[i as int] == '}' {
        Some(i)
    } else {
        first_stop(s, i + 1)
    }
}

/// Index of the last `/` among the first `n` characters of `s`.
pub open spec fn last_slash(s: Seq<char>, n: nat) -> Option<nat>
    decreases n,
{
    if n == 0 {
        None
    } else if s[n - 1] == '/' {
        Some((n - 1) as nat)
    } else {
        last_slash(s, (n - 1) as nat)
    }
}

/// The short name of a component `pkg/.Activity`: after the last slash,
/// without one leading dot; the whole component when it has no slash.
pub open spec fn activity_of(comp: Seq<char>) -> Seq<char> {
    match last_slash(comp, comp.len()) {
        Some(i) => {
            let a = comp.skip(i + 1int);
            if a.len() > 0 && a[0] == '.' {
                a.skip(1)
            } else {
                a
            }
        },
        None => comp,
    }
}

/// The activity a line of `dumpsys activity activities` names: a resumed
/// activity line holding `u0 <component>` ended by a space or `}`.
pub open spec fn resumed_in_line(line: Seq<char>) -> Option<Seq<char>> {
    let t = trim(line);
    if !(crate::text::contains(t, "mResumedActivity"@) || crate::text::contains(
        t,
        "topResumedActivity"@,
    )) {
        None
    } else {
        match crate::text::find(t, "u0 "@) {
            None => None,
            Some(start) => {
                let rest = t.skip(start + 3int);
                match first_stop(rest, 0) {
                    None => None,
                    Some(end) => Some(activity_of(rest.take(end as int))),
                }
            },
        }
    }
}

pub open spec fn resumed_from(ls: Seq<Seq<char>>, i: nat) -> Seq<char>
    decreases ls.len() - i,
{
    if i >= ls.len() {
        seq![]
    } else {
        match resumed_in_line(ls[i as int]) {
            Some(a) => a,
            None => resumed_from(ls, i + 1),
        }
    }
}

fn first_stop_exec(s: &[char]) -> (r: Option<usize>)
    ensures
        match first_stop(s@, 0) {
            Some(k) => r matches Some(j) && j == k && j < s@.len(),
            None => r is None,
        },
{
    let mut i: usize = 0;
    while i < s.len()
        invariant
            i <= s@.len(),
            first_stop(s@, 0) == first_stop(s@, i as nat),
        decreases s@.len() - i,
    {
        if s[i] == ' ' || s[i] == '}' {
            return Some(i);
        }
        i = i + 1;
    }
    None
}

fn activity_exec(comp: &[char]) -> (r: Vec<char>)
    ensures
        r@ == activity_of(comp@),
{
    let mut j = comp.len();
    while j > 0 && comp[j - 1] != '/'
        invariant
            j <= comp@.len(),
            last_slash(comp@, comp@.len()) == last_slash(comp@, j as nat),
        decreases j,
    {
        j = j - 1;
    }
    if j == 0 {
        return copy_range(comp, 0, comp.len());
    }
    let a = copy_range(comp, j, comp.len());
    assert(a@ =~= comp@.skip(j as int));
    if a.len() > 0 && a[0] == '.' {
        let b = copy_range(&a, 1, a.len());
        assert(b@ =~= a@.skip(1));
        b
    } else {
        a
    }
}

fn resumed_line_exec(line: &[char]) -> (r: Option<Vec<char>>)
    ensures
        match resumed_in_line(line@) {
            Some(a) => r matches Some(v) && v@ == a,
            None => r is None,
        },
{
    let t = trim_vec(line);
    if !(crate::text::contains_exec(&t, &chars_of("mResumedActivity")) || crate::text::contains_exec(
        &t,
        &chars_of("topResumedActivity"),
    )) {
        return None;
    }
    let u0 = chars_of("u0 ");
    proof {
        reveal_strlit("u0 ");
    }
    match crate::text::find_exec(&t, &u0) {
        None => None,
        Some(start) => {
            proof {
                crate::text::lemma_find_from_props(t@, u0@, 0);
            }
            let tl = t.len();
            assert(start + 3 <= tl);
            let rest = copy_range(&t, start + 3, tl);
            assert(rest@ =~= t@.skip(start + 3));
            match first_stop_exec(&rest) {
                None => None,
                Some(end) => {
                    let comp = copy_range(&rest, 0, end);
                    assert(comp@ =~= rest@.take(end as int));
                    Some(activity_exec(&comp))
                },
            }
        },
    }
}

/// The short name of the resumed activity in `dumpsys activity activities`
/// output: from the first resumed-activity line that names one; empty when
/// none does.
pub fn query_activity(out: &str) -> (r: String)
    ensures
        r@ == resumed_from(lines(out@), 0),
{
    let ls = lines_vec(&chars_of(out));
    let ghost lv = ls.deep_view();
    let mut i: usize = 0;
    while i < ls.len()
        invariant
            i <= ls@.len(),
            lv == ls.deep_view(),
            lv == lines(out@),
            lv.len() == ls@.len(),
            resumed_from(lv, 0) == resumed_from(lv, i as nat),
        decreases ls@.len() - i,
    {
        proof {
            crate::text::lemma_deep_view_chars(ls[i as int]);
        }
        match resumed_line_exec(&ls[i]) {
            Some(a) => {
                return string_of(&a);
            },
            None => {},
        }
        i = i + 1;
    }
    String::new()
}

} // verus!
