//! Touch and key input: the `adb shell input ...` command of each gesture.
//!
//! Each function gives the arguments that follow `adb shell`; the caller
//! picks the device (`Registry::resolve_device`) and runs them.
use vstd::prelude::*;
use crate::text::{
    chars_of, decimal_int, i64_to_string, lowercase, push_str, str_eq, string_of, strings_view,
    to_lowercase,
};

verus! {

pub struct TapArgs {
    pub x: i32,
    pub y: i32,
}

pub struct SwipeArgs {
    pub x1: i32,
    pub y1: i32,
    pub x2: i32,
    pub y2: i32,
    /// Duration in milliseconds
    pub duration: u32,
}

pub struct TypeArgs {
    /// Text to type (spaces become %s)
    pub text: String,
}

pub struct ButtonArgs {
    /// Button name: home, back, enter, menu, power, recents
    pub name: String,
}

pub struct ScrollArgs {
    /// Direction: up, down, left, right
    pub direction: String,
}

fn s(x: &str) -> (r: String)
    ensures
        r@ == x@,
{
    String::from_str(x)
}

fn int_string(v: i32) -> (r: String)
    ensures
        r@ == decimal_int(v as int),
{
    i64_to_string(v as i64)
}

/// `input tap x y`
pub fn tap(args: &TapArgs) -> (r: Vec<String>)
    ensures
        strings_view(r@) == seq!["input"@, "tap"@, decimal_int(args.x as int), decimal_int(args.y as int)],
{
    let r = vec![s("input"), s("tap"), int_string(args.x), int_string(args.y)];
    assert(strings_view(r@) =~= seq!["input"@, "tap"@, decimal_int(args.x as int), decimal_int(args.y as int)]);
    r
}

/// `input swipe x1 y1 x2 y2 duration`
pub fn swipe(args: &SwipeArgs) -> (r: Vec<String>)
    ensures
        strings_view(r@) == seq![
            "input"@,
            "swipe"@,
            decimal_int(args.x1 as int),
            decimal_int(args.y1 as int),
            decimal_int(args.x2 as int),
            decimal_int(args.y2 as int),
            decimal_int(args.duration as int),
        ],
{
    let r = vec![
        s("input"),
        s("swipe"),
        int_string(args.x1),
        int_string(args.y1),
        int_string(args.x2),
        int_string(args.y2),
        i64_to_string(args.duration as i64),
    ];
    assert(strings_view(r@) =~= seq![
        "input"@,
        "swipe"@,
        decimal_int(args.x1 as int),
        decimal_int(args.y1 as int),
        decimal_int(args.x2 as int),
        decimal_int(args.y2 as int),
        decimal_int(args.duration as int),
    ]);
    r
}

/// `text` with each space written `%s`, as `input text` wants it.
pub open spec fn escape_spaces(t: Seq<char>) -> Seq<char>
    decreases t.len(),
{
    if t.len() == 0 {
        seq![]
    } else {
        escape_spaces(t.drop_last()) + if t.last() == ' ' {
            seq!['%', 's']
        } else {
            seq![t.last()]
        }
    }
}

/// Typed text reaches `input text` with no space left in it: each space
/// is written `%s`, and every other character is kept, in order.
pub proof fn law_escaped_text_has_no_space(t: Seq<char>)
    ensures
        !escape_spaces(t).contains(' '),
        escape_spaces(t).len() == t.len() + t.filter(|c: char| c == ' ').len(),
    decreases t.len(),
{
    if t.len() > 0 {
        law_escaped_text_has_no_space(t.drop_last());
        let pre = escape_spaces(t.drop_last());
        let tail = if t.last() == ' ' {
            seq!['%', 's']
        } else {
            seq![t.last()]
        };
        assert(escape_spaces(t) == pre + tail);
        assert forall|i: int| 0 <= i < (pre + tail).len() implies (pre + tail)[i] != ' ' by {
            if i < pre.len() {
                assert((pre + tail)[i] == pre[i]);
                assert(pre.contains(pre[i]));
            }
        }
        assert(t.drop_last().push(t.last()) =~= t);
        t.drop_last().lemma_filter_push(t.last(), |c: char| c == ' ');
    }
}

/// `input text <text with %s for spaces>`
pub fn type_text(args: &TypeArgs) -> (r: Vec<String>)
    ensures
        strings_view(r@) == seq!["input"@, "text"@, escape_spaces(args.text@)],
{
    let cs = chars_of(args.text.as_str());
    let mut out: Vec<char> = Vec::new();
    let mut i: usize = 0;
    while i < cs.len()
        invariant
            i <= cs@.len(),
            cs@ == args.text@,
            out@ == escape_spaces(cs@.take(i as int)),
        decreases cs@.len() - i,
    {
        let c = cs[i];
        if c == ' ' {
            out.push('%');
            out.push('s');
        } else {
            out.push(c);
        }
        assert(cs@.take(i + 1).drop_last() =~= cs@.take(i as int));
        i = i + 1;
    }
    assert(cs@.take(i as int) =~= cs@);
    let r = vec![s("input"), s("text"), string_of(&out)];
    assert(strings_view(r@) =~= seq!["input"@, "text"@, escape_spaces(args.text@)]);
    r
}

/// The Android key code of a (lower-case) button name, for the names
/// that have one.
pub open spec fn keycode_for(n: Seq<char>) -> Option<Seq<char>> {
    if n == "home"@ {
        Some("3"@)
    } else if n == "back"@ {
        Some("4"@)
    } else if n == "power"@ {
        Some("26"@)
    } else if n == "enter"@ {
        Some("66"@)
    } else if n == "menu"@ {
        Some("82"@)
    } else if n == "recents"@ {
        Some("187"@)
    } else if n == "volume_up"@ || n == "volup"@ {
        Some("24"@)
    } else if n == "volume_down"@ || n == "voldown"@ {
        Some("25"@)
    } else if n == "delete"@ || n == "del"@ {
        Some("67"@)
    } else {
        None
    }
}

/// The key code sent for a button given by `name`: the code of a named
/// button (letter case aside), else `name` itself, as a raw key code.
pub open spec fn button_code(name: Seq<char>) -> Seq<char> {
    match keycode_for(lowercase(name)) {
        Some(c) => c,
        None => name,
    }
}

fn keycode(n: &str) -> (r: Option<String>)
    ensures
        match r {
            Some(c) => keycode_for(n@) == Some(c@),
            None => keycode_for(n@) is None,
        },
{
    if str_eq(n, "home") {
        Some(s("3"))
    } else if str_eq(n, "back") {
        Some(s("4"))
    } else if str_eq(n, "power") {
        Some(s("26"))
    } else if str_eq(n, "enter") {
        Some(s("66"))
    } else if str_eq(n, "menu") {
        Some(s("82"))
    } else if str_eq(n, "recents") {
        Some(s("187"))
    } else if str_eq(n, "volume_up") || str_eq(n, "volup") {
        Some(s("24"))
    } else if str_eq(n, "volume_down") || str_eq(n, "voldown") {
        Some(s("25"))
    } else if str_eq(n, "delete") || str_eq(n, "del") {
        Some(s("67"))
    } else {
        None
    }
}

/// `input keyevent <code>` for a button named in any case, or for a raw
/// key code given as it is to be sent.
pub fn button(args: &ButtonArgs) -> (r: Vec<String>)
    ensures
        strings_view(r@) == seq!["input"@, "keyevent"@, button_code(args.name@)],
{
    let lowered = to_lowercase(args.name.as_str());
    let code = match keycode(lowered.as_str()) {
        Some(c) => c,
        None => s(args.name.as_str()),
    };
    let r = vec![s("input"), s("keyevent"), code];
    assert(strings_view(r@) =~= seq!["input"@, "keyevent"@, button_code(args.name@)]);
    r
}

/// `input keyevent 3`
pub fn home() -> (r: Vec<String>)
    ensures
        strings_view(r@) == seq!["input"@, "keyevent"@, "3"@],
{
    let r = vec![s("input"), s("keyevent"), s("3")];
    assert(strings_view(r@) =~= seq!["input"@, "keyevent"@, "3"@]);
    r
}

/// `input keyevent 4`
pub fn back() -> (r: Vec<String>)
    ensures
        strings_view(r@) == seq!["input"@, "keyevent"@, "4"@],
{
    let r = vec![s("input"), s("keyevent"), s("4")];
    assert(strings_view(r@) =~= seq!["input"@, "keyevent"@, "4"@]);
    r
}

/// Swipe endpoints of a scroll through the middle of a 1080-wide screen.
pub open spec fn scroll_coords(d: Seq<char>) -> Option<(int, int, int, int)> {
    if d == "down"@ {
        Some((540, 1400, 540, 800))
    } else if d == "up"@ {
        Some((540, 800, 540, 1400))
    } else if d == "left"@ {
        Some((800, 1000, 200, 1000))
    } else if d == "right"@ {
        Some((200, 1000, 800, 1000))
    } else {
        None
    }
}

/// The four scroll directions give four different swipes: scrolling up
/// moves the finger down the screen (from a smaller to a larger y) and is
/// exactly the scroll-down swipe reversed; scrolling down moves it up;
/// left and right move it along one row, one the reverse of the other.
pub proof fn law_scroll_directions_distinct(d1: Seq<char>, d2: Seq<char>)
    ensures
        scroll_coords(d1) is Some && scroll_coords(d1) == scroll_coords(d2) ==> d1 == d2,
        scroll_coords(d1) matches Some((x1, y1, x2, y2)) ==> ((d1 == "up"@ <==> y1 < y2) && (d1
            == "down"@ <==> y1 > y2) && (d1 == "left"@ <==> x1 > x2) && (d1 == "right"@ <==> x1
            < x2)),
        scroll_coords("down"@) matches Some((x1, y1, x2, y2)) && scroll_coords("up"@) == Some(
            (x2, y2, x1, y1),
        ),
        scroll_coords("left"@) matches Some((x1, y1, x2, y2)) && scroll_coords("right"@) == Some(
            (x2, y2, x1, y1),
        ),
{
    reveal_strlit("up");
    reveal_strlit("down");
    reveal_strlit("left");
    reveal_strlit("right");
    assert("up"@.len() == 2);
    assert("down"@.len() == 4);
    assert("left"@.len() == 4);
    assert("right"@.len() == 5);
    assert("down"@[0] != "left"@[0]);
}

/// `input swipe ... 500` for a direction named in any case; an unknown
/// direction is refused.
pub fn scroll(args: &ScrollArgs) -> (r: Result<Vec<String>, String>)
    ensures
        match scroll_coords(lowercase(args.direction@)) {
            Some((x1, y1, x2, y2)) => r matches Ok(v) && strings_view(v@) == seq![
                "input"@,
                "swipe"@,
                decimal_int(x1),
                decimal_int(y1),
                decimal_int(x2),
                decimal_int(y2),
                "500"@,
            ],
            None => r matches Err(e) && e@ == "unknown direction '"@ + lowercase(args.direction@)
                + "'. use: up, down, left, right"@,
        },
{
    let lowered = to_lowercase(args.direction.as_str());
    let d = lowered.as_str();
    let (x1, y1, x2, y2): (i32, i32, i32, i32) = if str_eq(d, "down") {
        (540, 1400, 540, 800)
    } else if str_eq(d, "up") {
        (540, 800, 540, 1400)
    } else if str_eq(d, "left") {
        (800, 1000, 200, 1000)
    } else if str_eq(d, "right") {
        (200, 1000, 800, 1000)
    } else {
        let mut v: Vec<char> = Vec::new();
        push_str(&mut v, "unknown direction '");
        push_str(&mut v, d);
        push_str(&mut v, "'. use: up, down, left, right");
        assert(v@ =~= "unknown direction '"@ + d@ + "'. use: up, down, left, right"@);
        return Err(string_of(&v));
    };
    let r = vec![
        s("input"),
        s("swipe"),
        int_string(x1),
        int_string(y1),
        int_string(x2),
        int_string(y2),
        s("500"),
    ];
    assert(strings_view(r@) =~= seq![
        "input"@,
        "swipe"@,
        decimal_int(x1 as int),
        decimal_int(y1 as int),
        decimal_int(x2 as int),
        decimal_int(y2 as int),
        "500"@,
    ]);
    Ok(r)
}

} // verus!
