//! What a test step does: the decisions of each action and assertion, the
//! commands they send and the messages they report. Sending the commands,
//! waiting and polling are left to the caller.
use vstd::prelude::*;
use crate::test_element::{Target, opt_or_empty, content_line, content_line_exec};
use crate::test_spec::{ActionStep, AssertStep};
use vstd::string::StringSliceAdditionalSpecFns;
use crate::text::{
    chars_of, contains, contains_exec, decimal_int, decimal_nat, find, find_exec, lines, lines_vec,
    lowercase, opt_str_view, opt_view, parse_u64, parse_u64_exec, push_chars, push_i64, push_str,
    push_u64, replace, replace_exec, starts_with, str_eq, string_of, strings_view, to_lowercase,
    to_uppercase, trim, trim_vec, uppercase, lemma_deep_view_chars,
};

verus! {

fn s(x: &str) -> (r: String)
    ensures
        r@ == x@,
{
    String::from_str(x)
}

fn cat2(a: &str, b: &str) -> (r: String)
    ensures
        r@ == a@ + b@,
{
    let mut v: Vec<char> = Vec::new();
    push_str(&mut v, a);
    push_str(&mut v, b);
    assert(v@ =~= a@ + b@);
    string_of(&v)
}

fn cat3(a: &str, b: &str, c: &str) -> (r: String)
    ensures
        r@ == a@ + b@ + c@,
{
    let mut v: Vec<char> = Vec::new();
    push_str(&mut v, a);
    push_str(&mut v, b);
    push_str(&mut v, c);
    assert(v@ =~= a@ + b@ + c@);
    string_of(&v)
}

// ---------------------------------------------------------------------------
// Actions
// ---------------------------------------------------------------------------

/// The actions a step may name.
#[derive(PartialEq, Eq, Structural, Clone, Copy, Debug)]
pub enum ActionKind {
    Tap,
    Type,
    TextFieldSet,
    WaitUntil,
    Scroll,
    NavigateRemoved,
    DeepLink,
    LongPress,
    Click,
    KeyboardDismiss,
    Back,
    Home,
    StageGallery,
    Wait,
    WaitIdle,
    WaitEvent,
    Capture,
    CaptureScreenshot,
    ApiCall,
    Unknown,
}

pub open spec fn action_kind_spec(n: Seq<char>) -> ActionKind {
    if n == "tap"@ {
        ActionKind::Tap
    } else if n == "type"@ {
        ActionKind::Type
    } else if n == "text_field_set"@ {
        ActionKind::TextFieldSet
    } else if n == "wait_until"@ {
        ActionKind::WaitUntil
    } else if n == "scroll"@ || n == "scroll_to"@ {
        ActionKind::Scroll
    } else if n == "navigate_to_site"@ || n == "navigate_to_user"@ {
        ActionKind::NavigateRemoved
    } else if n == "deep_link"@ {
        ActionKind::DeepLink
    } else if n == "long_press"@ {
        ActionKind::LongPress
    } else if n == "click"@ {
        ActionKind::Click
    } else if n == "keyboard_dismiss"@ {
        ActionKind::KeyboardDismiss
    } else if n == "back"@ || n == "press_back"@ {
        ActionKind::Back
    } else if n == "home"@ {
        ActionKind::Home
    } else if n == "stage_gallery"@ {
        ActionKind::StageGallery
    } else if n == "wait"@ {
        ActionKind::Wait
    } else if n == "wait_idle"@ {
        ActionKind::WaitIdle
    } else if n == "wait_event"@ {
        ActionKind::WaitEvent
    } else if n == "capture"@ {
        ActionKind::Capture
    } else if n == "capture_screenshot"@ {
        ActionKind::CaptureScreenshot
    } else if n == "api_call"@ {
        ActionKind::ApiCall
    } else {
        ActionKind::Unknown
    }
}

/// Only the action `home` goes home, and only `back` and `press_back` go
/// back: the two key actions are never confused with each other or with
/// any other name.
pub proof fn law_home_and_back_actions(n: Seq<char>)
    ensures
        action_kind_spec(n) == ActionKind::Home <==> n == "home"@,
        action_kind_spec(n) == ActionKind::Back <==> (n == "back"@ || n == "press_back"@),
{
    reveal_strlit("tap");
    reveal_strlit("type");
    reveal_strlit("text_field_set");
    reveal_strlit("wait_until");
    reveal_strlit("scroll");
    reveal_strlit("scroll_to");
    reveal_strlit("navigate_to_site");
    reveal_strlit("navigate_to_user");
    reveal_strlit("deep_link");
    reveal_strlit("long_press");
    reveal_strlit("click");
    reveal_strlit("keyboard_dismiss");
    reveal_strlit("back");
    reveal_strlit("press_back");
    reveal_strlit("home");
    if n == "home"@ {
        assert(n.len() == 4);
        assert(n != "tap"@);
        assert(n[0] != "type"@[0]);
        assert(n != "type"@);
        assert(n[0] != "back"@[0]);
        assert(n != "back"@);
    }
    if n == "back"@ {
        assert(n.len() == 4);
        assert(n[0] != "type"@[0]);
        assert(n != "type"@);
    }
    if n == "press_back"@ {
        assert(n.len() == 10);
        assert(n[0] != "wait_until"@[0]);
        assert(n != "wait_until"@);
        assert(n[0] != "long_press"@[0]);
        assert(n != "long_press"@);
    }
}

pub fn action_kind(name: &str) -> (r: ActionKind)
    ensures
        r == action_kind_spec(name@),
{
    if str_eq(name, "tap") {
        ActionKind::Tap
    } else if str_eq(name, "type") {
        ActionKind::Type
    } else if str_eq(name, "text_field_set") {
        ActionKind::TextFieldSet
    } else if str_eq(name, "wait_until") {
        ActionKind::WaitUntil
    } else if str_eq(name, "scroll") || str_eq(name, "scroll_to") {
        ActionKind::Scroll
    } else if str_eq(name, "navigate_to_site") || str_eq(name, "navigate_to_user") {
        ActionKind::NavigateRemoved
    } else if str_eq(name, "deep_link") {
        ActionKind::DeepLink
    } else if str_eq(name, "long_press") {
        ActionKind::LongPress
    } else if str_eq(name, "click") {
        ActionKind::Click
    } else if str_eq(name, "keyboard_dismiss") {
        ActionKind::KeyboardDismiss
    } else if str_eq(name, "back") || str_eq(name, "press_back") {
        ActionKind::Back
    } else if str_eq(name, "home") {
        ActionKind::Home
    } else if str_eq(name, "stage_gallery") {
        ActionKind::StageGallery
    } else if str_eq(name, "wait") {
        ActionKind::Wait
    } else if str_eq(name, "wait_idle") {
        ActionKind::WaitIdle
    } else if str_eq(name, "wait_event") {
        ActionKind::WaitEvent
    } else if str_eq(name, "capture") {
        ActionKind::Capture
    } else if str_eq(name, "capture_screenshot") {
        ActionKind::CaptureScreenshot
    } else if str_eq(name, "api_call") {
        ActionKind::ApiCall
    } else {
        ActionKind::Unknown
    }
}

/// The error an action fails with before any command: removed or unknown
/// actions, and a missing field the action cannot do without.
pub open spec fn precheck_spec(a: ActionStep) -> Option<Seq<char>> {
    match action_kind_spec(a.action@) {
        ActionKind::NavigateRemoved => Some(
            a.action@ + ": direct navigation deleted — use UI search/tap steps instead"@,
        ),
        ActionKind::DeepLink => Some(a.action@ + ": use platform: android: steps in TC YAML"@),
        ActionKind::Unknown => Some("unknown action: "@ + a.action@),
        ActionKind::Tap => if a.target is None {
            Some("tap: no target"@)
        } else {
            None
        },
        ActionKind::Type => if a.text is None {
            Some("type: no text"@)
        } else {
            None
        },
        ActionKind::TextFieldSet => if a.text is None {
            Some("text_field_set: no text"@)
        } else {
            None
        },
        ActionKind::WaitUntil => if a.target is None {
            Some("wait_until: no target"@)
        } else {
            None
        },
        ActionKind::LongPress => if a.target is None {
            Some("long_press: no target"@)
        } else {
            None
        },
        ActionKind::Click => match a.target {
            None => Some("click: no target"@),
            Some(t) => if t.content_fuzzy is None && t.id is None {
                Some("click: need content_fuzzy or id"@)
            } else {
                None
            },
        },
        ActionKind::StageGallery => if a.source is None {
            Some("stage_gallery: no source"@)
        } else {
            None
        },
        ActionKind::Capture => if a.output is None {
            Some("capture: no output path"@)
        } else {
            None
        },
        ActionKind::CaptureScreenshot => if a.output is None {
            Some("capture_screenshot: no output path"@)
        } else {
            None
        },
        ActionKind::ApiCall => if a.url is None {
            Some("api_call: no url"@)
        } else {
            None
        },
        _ => None,
    }
}

pub fn precheck(a: &ActionStep) -> (r: Option<String>)
    ensures
        opt_view(r) == precheck_spec(*a),
{
    let name = a.action.as_str();
    match action_kind(name) {
        ActionKind::NavigateRemoved => Some(
            cat2(name, ": direct navigation deleted — use UI search/tap steps instead"),
        ),
        ActionKind::DeepLink => Some(cat2(name, ": use platform: android: steps in TC YAML")),
        ActionKind::Unknown => Some(cat2("unknown action: ", name)),
        ActionKind::Tap => if a.target.is_none() {
            Some(s("tap: no target"))
        } else {
            None
        },
        ActionKind::Type => if a.text.is_none() {
            Some(s("type: no text"))
        } else {
            None
        },
        ActionKind::TextFieldSet => if a.text.is_none() {
            Some(s("text_field_set: no text"))
        } else {
            None
        },
        ActionKind::WaitUntil => if a.target.is_none() {
            Some(s("wait_until: no target"))
        } else {
            None
        },
        ActionKind::LongPress => if a.target.is_none() {
            Some(s("long_press: no target"))
        } else {
            None
        },
        ActionKind::Click => match &a.target {
            None => Some(s("click: no target")),
            Some(t) => if t.content_fuzzy.is_none() && t.id.is_none() {
                Some(s("click: need content_fuzzy or id"))
            } else {
                None
            },
        },
        ActionKind::StageGallery => if a.source.is_none() {
            Some(s("stage_gallery: no source"))
        } else {
            None
        },
        ActionKind::Capture => if a.output.is_none() {
            Some(s("capture: no output path"))
        } else {
            None
        },
        ActionKind::CaptureScreenshot => if a.output.is_none() {
            Some(s("capture_screenshot: no output path"))
        } else {
            None
        },
        ActionKind::ApiCall => if a.url.is_none() {
            Some(s("api_call: no url"))
        } else {
            None
        },
        _ => None,
    }
}

/// A press at `(x, y)` held for `ms` milliseconds: a swipe that stays put
/// (50 ms for a tap, 1500 ms for a long press).
pub fn press_args(x: i32, y: i32, ms: &str) -> (r: Vec<String>)
    ensures
        strings_view(r@) == seq![
            "input"@,
            "swipe"@,
            decimal_int(x as int),
            decimal_int(y as int),
            decimal_int(x as int),
            decimal_int(y as int),
            ms@,
        ],
{
    let xs = crate::text::i64_to_string(x as i64);
    let ys = crate::text::i64_to_string(y as i64);
    let r = vec![
        s("input"),
        s("swipe"),
        crate::text::copy_string(&xs),
        crate::text::copy_string(&ys),
        xs,
        ys,
        s(ms),
    ];
    assert(strings_view(r@) =~= seq![
        "input"@,
        "swipe"@,
        decimal_int(x as int),
        decimal_int(y as int),
        decimal_int(x as int),
        decimal_int(y as int),
        ms@,
    ]);
    r
}

/// Whether typed text goes through the agent: when the step asks for a
/// click afterwards, or the text is not all ASCII (adb's `input text`
/// cannot type it).
pub open spec fn types_via_agent(click_after: bool, text: Seq<char>) -> bool {
    click_after || exists|i: int| 0 <= i < text.len() && (text[i] as u32) >= 128
}

pub fn typing_via_agent(click_after: bool, text: &str) -> (r: bool)
    ensures
        r == types_via_agent(click_after, text@),
{
    if click_after {
        return true;
    }
    let c = chars_of(text);
    let mut i: usize = 0;
    while i < c.len()
        invariant
            i <= c@.len(),
            c@ == text@,
            forall|j: int| 0 <= j < i ==> (c@[j] as u32) < 128,
        decreases c@.len() - i,
    {
        if (c[i] as u32) >= 128 {
            return true;
        }
        i = i + 1;
    }
    false
}

/// The adb commands that clear the focused field and type `text` into it:
/// home, select to the end, delete, then the text with `%s` for spaces.
pub fn clear_and_type(text: &str) -> (r: Vec<Vec<String>>)
    ensures
        r@.len() == 4,
        strings_view(r@[0]@) == seq!["input"@, "keyevent"@, "KEYCODE_MOVE_HOME"@],
        strings_view(r@[1]@) == seq![
            "input"@,
            "keyevent"@,
            "--longpress"@,
            "KEYCODE_SHIFT_LEFT"@,
            "KEYCODE_MOVE_END"@,
        ],
        strings_view(r@[2]@) == seq!["input"@, "keyevent"@, "KEYCODE_DEL"@],
        strings_view(r@[3]@) == seq!["input"@, "text"@, crate::touch::escape_spaces(text@)],
{
    let a = vec![s("input"), s("keyevent"), s("KEYCODE_MOVE_HOME")];
    let b = vec![s("input"), s("keyevent"), s("--longpress"), s("KEYCODE_SHIFT_LEFT"), s("KEYCODE_MOVE_END")];
    let c = vec![s("input"), s("keyevent"), s("KEYCODE_DEL")];
    let d = crate::touch::type_text(&crate::touch::TypeArgs { text: s(text) });
    assert(strings_view(a@) =~= seq!["input"@, "keyevent"@, "KEYCODE_MOVE_HOME"@]);
    assert(strings_view(b@) =~= seq![
        "input"@,
        "keyevent"@,
        "--longpress"@,
        "KEYCODE_SHIFT_LEFT"@,
        "KEYCODE_MOVE_END"@,
    ]);
    assert(strings_view(c@) =~= seq!["input"@, "keyevent"@, "KEYCODE_DEL"@]);
    vec![a, b, c, d]
}

/// `typed "{text}"`, or `text_field_set "{text}"`.
pub fn quoted_result(prefix: &str, text: &str) -> (r: String)
    ensures
        r@ == prefix@ + " \""@ + text@ + "\""@,
{
    let mut v: Vec<char> = Vec::new();
    push_str(&mut v, prefix);
    push_str(&mut v, " \"");
    push_str(&mut v, text);
    push_str(&mut v, "\"");
    assert(v@ =~= prefix@ + " \""@ + text@ + "\""@);
    string_of(&v)
}

/// How the agent is told what to click: by its fuzzy text, else by id.
pub enum ClickBy {
    ContentFuzzy(String),
    ResourceId(String),
}

pub fn click_by(t: &Target) -> (r: Option<ClickBy>)
    ensures
        match t.content_fuzzy {
            Some(f) => r matches Some(ClickBy::ContentFuzzy(v)) && v@ == f@,
            None => match t.id {
                Some(i) => r matches Some(ClickBy::ResourceId(v)) && v@ == i@,
                None => r is None,
            },
        },
{
    match &t.content_fuzzy {
        Some(f) => Some(ClickBy::ContentFuzzy(crate::text::copy_string(f))),
        None => match &t.id {
            Some(i) => Some(ClickBy::ResourceId(crate::text::copy_string(i))),
            None => None,
        },
    }
}

/// `click: {agent reply, trimmed}`
pub fn click_result(reply: &str) -> (r: String)
    ensures
        r@ == "click: "@ + trim(reply@),
{
    let c = chars_of(reply);
    let t = trim_vec(&c);
    let mut v: Vec<char> = Vec::new();
    push_str(&mut v, "click: ");
    push_chars(&mut v, &t);
    assert(v@ =~= "click: "@ + trim(reply@));
    string_of(&v)
}

/// Seconds a plain `wait` sleeps: the step's `seconds`, else 2.
pub fn wait_secs(a: &ActionStep) -> (r: u64)
    ensures
        r == match a.seconds {
            Some(v) => v,
            None => 2u64,
        },
{
    match a.seconds {
        Some(v) => v,
        None => 2,
    }
}

/// Seconds `wait_idle` and `wait_event` wait: `seconds`, else
/// `wait_timeout`, else 10.
pub fn idle_wait_secs(a: &ActionStep) -> (r: u64)
    ensures
        r == match a.seconds {
            Some(v) => v,
            None => match a.wait_timeout {
                Some(w) => w,
                None => 10u64,
            },
        },
{
    match a.seconds {
        Some(v) => v,
        None => match a.wait_timeout {
            Some(w) => w,
            None => 10,
        },
    }
}

/// `wait_until`: the step waits up to `wait_timeout` (30 s by default)
/// for its fuzzy text to appear in the agent's YAML.
pub fn wait_until_timeout(a: &ActionStep) -> (r: u64)
    ensures
        r == match a.wait_timeout {
            Some(v) => v,
            None => 30u64,
        },
{
    match a.wait_timeout {
        Some(v) => v,
        None => 30,
    }
}

/// The YAML shows the target: its fuzzy text is set and occurs in the
/// YAML, both lower-cased.
pub open spec fn wait_until_seen(t: Target, yaml: Seq<char>) -> bool {
    opt_or_empty(t.content_fuzzy).len() > 0 && contains(
        lowercase(yaml),
        lowercase(opt_or_empty(t.content_fuzzy)),
    )
}

pub fn wait_until_found(t: &Target, yaml: &str) -> (r: bool)
    ensures
        r == wait_until_seen(*t, yaml@),
{
    match &t.content_fuzzy {
        Some(f) => {
            if f.as_str().is_empty() {
                return false;
            }
            let ly = to_lowercase(yaml);
            let lf = to_lowercase(f.as_str());
            contains_exec(&chars_of(ly.as_str()), &chars_of(lf.as_str()))
        },
        None => false,
    }
}

/// The name `wait_until` reports: the fuzzy text, or `?`.
pub open spec fn fuzzy_or_q(t: Target) -> Seq<char> {
    match t.content_fuzzy {
        Some(f) => f@,
        None => "?"@,
    }
}

fn fuzzy_or_q_exec(t: &Target) -> (r: &str)
    ensures
        r@ == fuzzy_or_q(*t),
{
    match &t.content_fuzzy {
        Some(f) => f.as_str(),
        None => "?",
    }
}

/// `wait_until: found '…'`, or after the timeout
/// `wait_until: '…' not visible after {t}s`.
pub fn wait_until_result(t: &Target, found: bool, timeout: u64) -> (r: Result<String, String>)
    ensures
        found ==> (r matches Ok(m) && m@ == "wait_until: found '"@ + fuzzy_or_q(*t) + "'"@),
        !found ==> (r matches Err(m) && m@ == "wait_until: '"@ + fuzzy_or_q(*t) + "' not visible after "@
            + decimal_nat(timeout as nat) + "s"@),
{
    let f = fuzzy_or_q_exec(t);
    if found {
        Ok(cat3("wait_until: found '", f, "'"))
    } else {
        let mut v: Vec<char> = Vec::new();
        push_str(&mut v, "wait_until: '");
        push_str(&mut v, f);
        push_str(&mut v, "' not visible after ");
        push_u64(&mut v, timeout);
        push_str(&mut v, "s");
        assert(v@ =~= "wait_until: '"@ + f@ + "' not visible after "@ + decimal_nat(timeout as nat)
            + "s"@);
        Err(string_of(&v))
    }
}

/// Attempts of `scroll_to`: `max_attempts`, else 10.
pub fn scroll_attempts(a: &ActionStep) -> (r: u32)
    ensures
        r == match a.max_attempts {
            Some(v) => v,
            None => 10u32,
        },
{
    match a.max_attempts {
        Some(v) => v,
        None => 10,
    }
}

/// `already visible: {desc} at ({x},{y})`
pub fn already_visible(desc: &str, x: i32, y: i32) -> (r: String)
    ensures
        r@ == "already visible: "@ + desc@ + " at ("@ + decimal_int(x as int) + ","@ + decimal_int(
            y as int,
        ) + ")"@,
{
    let mut v: Vec<char> = Vec::new();
    push_str(&mut v, "already visible: ");
    push_str(&mut v, desc);
    push_str(&mut v, " at (");
    push_i64(&mut v, x as i64);
    push_str(&mut v, ",");
    push_i64(&mut v, y as i64);
    push_str(&mut v, ")");
    assert(v@ =~= "already visible: "@ + desc@ + " at ("@ + decimal_int(x as int) + ","@
        + decimal_int(y as int) + ")"@);
    string_of(&v)
}

/// `scroll_to: element not found after {n} attempts`
pub fn scroll_to_failed(attempts: u32) -> (r: String)
    ensures
        r@ == "scroll_to: element not found after "@ + decimal_nat(attempts as nat) + " attempts"@,
{
    let mut v: Vec<char> = Vec::new();
    push_str(&mut v, "scroll_to: element not found after ");
    push_u64(&mut v, attempts as u64);
    push_str(&mut v, " attempts");
    assert(v@ =~= "scroll_to: element not found after "@ + decimal_nat(attempts as nat)
        + " attempts"@);
    string_of(&v)
}

/// A directional scroll without a target: the direction (`down` by
/// default) and how many swipes (1 by default).
pub fn scroll_plan(a: &ActionStep) -> (r: (String, u64))
    ensures
        r.0@ == match a.direction {
            Some(d) => d@,
            None => "down"@,
        },
        r.1 == match a.times {
            Some(t) => t,
            None => 1u64,
        },
{
    let d = match &a.direction {
        Some(d) => crate::text::copy_string(d),
        None => s("down"),
    };
    let t = match a.times {
        Some(t) => t,
        None => 1,
    };
    (d, t)
}

/// The output path of a capture, with `{platform}` filled in.
pub fn capture_output(raw: &str) -> (r: String)
    ensures
        r@ == replace(raw@, "{platform}"@, "android"@),
{
    let c = chars_of(raw);
    let out = replace_exec(&c, &chars_of("{platform}"), &chars_of("android"));
    string_of(&out)
}

/// Which catalogue entry a capture updates: the step's own catalogue root
/// with the entry key found in the output path, else the root and key
/// found in the output path.
pub open spec fn capture_catalogue_spec(catalogue: Option<Seq<char>>, output: Seq<char>) -> Option<
    (Seq<char>, Option<Seq<char>>),
> {
    match catalogue {
        Some(c) => Some(
            (
                c,
                match crate::catalogue::catalogue_path(output) {
                    Some((_, k)) => Some(k),
                    None => None,
                },
            ),
        ),
        None => match crate::catalogue::catalogue_path(output) {
            Some((root, k)) => Some((root, Some(k))),
            None => None,
        },
    }
}

pub fn capture_catalogue(catalogue: Option<&str>, output: &str) -> (r: Option<(String, Option<String>)>)
    ensures
        match r {
            Some((c, k)) => capture_catalogue_spec(opt_str_view(catalogue), output@) == Some(
                (c@, opt_view(k)),
            ),
            None => capture_catalogue_spec(opt_str_view(catalogue), output@) is None,
        },
{
    let found = crate::catalogue::detect_catalogue_path(output);
    match catalogue {
        Some(c) => Some(
            (
                s(c),
                match found {
                    Some((_, k)) => Some(k),
                    None => None,
                },
            ),
        ),
        None => match found {
            Some((root, k)) => Some((root, Some(k))),
            None => None,
        },
    }
}

/// Where `stage_gallery` puts a file on the device, and how the media
/// scanner is told of it.
pub fn gallery_paths(basename: &str) -> (r: (String, Vec<String>, String))
    ensures
        r.0@ == "/sdcard/Pictures/"@ + basename@,
        strings_view(r.1@) == seq![
            "am"@,
            "broadcast"@,
            "-a"@,
            "android.intent.action.MEDIA_SCANNER_SCAN_FILE"@,
            "-d"@,
            "file://"@ + "/sdcard/Pictures/"@ + basename@,
        ],
        r.2@ == "staged "@ + basename@ + " → "@ + "/sdcard/Pictures/"@ + basename@,
{
    let device_path = cat2("/sdcard/Pictures/", basename);
    let uri = cat2("file://", device_path.as_str());
    assert(uri@ =~= "file://"@ + "/sdcard/Pictures/"@ + basename@);
    let ghost u = uri@;
    let args = vec![
        s("am"),
        s("broadcast"),
        s("-a"),
        s("android.intent.action.MEDIA_SCANNER_SCAN_FILE"),
        s("-d"),
        uri,
    ];
    assert(args@[5]@ == u);
    assert(strings_view(args@) =~= seq![
        "am"@,
        "broadcast"@,
        "-a"@,
        "android.intent.action.MEDIA_SCANNER_SCAN_FILE"@,
        "-d"@,
        "file://"@ + "/sdcard/Pictures/"@ + basename@,
    ]);
    let mut v: Vec<char> = Vec::new();
    push_str(&mut v, "staged ");
    push_str(&mut v, basename);
    push_str(&mut v, " → ");
    push_str(&mut v, device_path.as_str());
    assert(v@ =~= "staged "@ + basename@ + " → "@ + "/sdcard/Pictures/"@ + basename@);
    (device_path, args, string_of(&v))
}

// ---------------------------------------------------------------------------
// API calls
// ---------------------------------------------------------------------------

/// The URL an API call goes to: as given when it starts with `http`, else
/// after the configured base.
pub open spec fn full_url_spec(base: Seq<char>, url: Seq<char>) -> Seq<char> {
    if starts_with(url, "http"@) {
        url
    } else {
        base + url
    }
}

pub fn full_url(base: &str, url: &str) -> (r: String)
    ensures
        r@ == full_url_spec(base@, url@),
{
    let u = chars_of(url);
    if crate::text::starts_with_exec(&u, &chars_of("http")) {
        s(url)
    } else {
        cat2(base, url)
    }
}

/// The curl arguments of an API call: status code after the body, the
/// method in upper case, each header, a JSON body, the time left, the URL.
pub open spec fn api_curl_args_spec(
    method: Seq<char>,
    headers: Seq<(Seq<char>, Seq<char>)>,
    body: Option<Seq<char>>,
    max_time: u64,
    url: Seq<char>,
) -> Seq<Seq<char>> {
    seq![
        "-s"@,
        "-w"@,
        "\n%{http_code}"@,
        "-X"@,
        uppercase(method),
        "--connect-timeout"@,
        "10"@,
    ] + header_args(headers) + match body {
        Some(b) => seq!["-H"@, "Content-Type: application/json"@, "-d"@, b],
        None => seq![],
    } + seq!["--max-time"@, decimal_nat(max_time as nat), url]
}

pub open spec fn header_args(h: Seq<(Seq<char>, Seq<char>)>) -> Seq<Seq<char>>
    decreases h.len(),
{
    if h.len() == 0 {
        seq![]
    } else {
        header_args(h.drop_last()) + seq!["-H"@, h.last().0 + ": "@ + h.last().1]
    }
}

pub open spec fn pair_views(h: Seq<(String, String)>) -> Seq<(Seq<char>, Seq<char>)> {
    h.map_values(|p: (String, String)| (p.0@, p.1@))
}

/// Build the curl arguments of an API call (headers with their values
/// already interpolated, in the order given).
pub fn api_curl_args(
    method: &str,
    headers: &Vec<(String, String)>,
    body: Option<&str>,
    max_time: u64,
    url: &str,
) -> (r: Vec<String>)
    ensures
        strings_view(r@) == api_curl_args_spec(
            method@,
            pair_views(headers@),
            opt_str_view(body),
            max_time,
            url@,
        ),
{
    let mut r: Vec<String> = vec![
        s("-s"),
        s("-w"),
        s("\n%{http_code}"),
        s("-X"),
        to_uppercase(method),
        s("--connect-timeout"),
        s("10"),
    ];
    let ghost head = strings_view(r@);
    let ghost hv = pair_views(headers@);
    let mut i: usize = 0;
    assert(hv.take(0) =~= Seq::<(Seq<char>, Seq<char>)>::empty());
    assert(strings_view(r@) =~= head + header_args(hv.take(0)));
    while i < headers.len()
        invariant
            i <= headers@.len(),
            hv == pair_views(headers@),
            strings_view(r@) == head + header_args(hv.take(i as int)),
        decreases headers@.len() - i,
    {
        let ghost before = strings_view(r@);
        r.push(s("-H"));
        r.push(cat3(headers[i].0.as_str(), ": ", headers[i].1.as_str()));
        assert(hv.take(i + 1).drop_last() =~= hv.take(i as int));
        assert(strings_view(r@) =~= before + seq![
            "-H"@,
            headers@[i as int].0@ + ": "@ + headers@[i as int].1@,
        ]);
        i = i + 1;
    }
    assert(hv.take(i as int) =~= hv);
    let ghost mid = strings_view(r@);
    match body {
        Some(b) => {
            r.push(s("-H"));
            r.push(s("Content-Type: application/json"));
            r.push(s("-d"));
            r.push(s(b));
            assert(strings_view(r@) =~= mid + seq!["-H"@, "Content-Type: application/json"@, "-d"@, b@]);
        },
        None => {
            assert(strings_view(r@) =~= mid + Seq::<Seq<char>>::empty());
        },
    }
    let ghost mid2 = strings_view(r@);
    r.push(s("--max-time"));
    r.push(crate::text::u64_to_string(max_time));
    r.push(s(url));
    assert(strings_view(r@) =~= mid2 + seq!["--max-time"@, decimal_nat(max_time as nat), url@]);
    r
}

/// The last index of `c` in `s`.
pub open spec fn last_index(s: Seq<char>, c: char, k: nat) -> Option<nat>
    decreases k,
{
    if k == 0 || k > s.len() {
        None
    } else if s[k - 1] == c {
        Some((k - 1) as nat)
    } else {
        last_index(s, c, (k - 1) as nat)
    }
}

/// The body and the status text of curl's output: split at the last
/// newline, or all body and status `0` when there is none.
pub open spec fn split_status(raw: Seq<char>) -> (Seq<char>, Seq<char>) {
    match last_index(raw, '\n', raw.len()) {
        Some(k) => (raw.take(k as int), raw.skip(k as int + 1)),
        None => (raw, "0"@),
    }
}

/// `str::parse::<u16>().ok()`
pub open spec fn parse_u16(s: Seq<char>) -> Option<u16> {
    match parse_u64(s) {
        Some(v) => if v <= u16::MAX {
            Some(v as u16)
        } else {
            None
        },
        None => None,
    }
}

/// The HTTP status of an API call's output (0 when unreadable).
pub open spec fn api_status(raw: Seq<char>) -> u16 {
    match parse_u16(trim(split_status(raw).1)) {
        Some(v) => v,
        None => 0,
    }
}

/// The byte length of `s` in UTF-8, at most 200.
pub open spec fn cut200(s: Seq<char>) -> int {
    let n = vstd::utf8::encode_utf8(s).len();
    if n < 200 {
        n as int
    } else {
        200
    }
}

/// `p` is the text of the first 200 bytes of `s` (`&s[..s.len().min(200)]`).
pub open spec fn head200(s: Seq<char>, p: Seq<char>) -> bool {
    vstd::utf8::encode_utf8(p) == vstd::utf8::encode_utf8(s).take(cut200(s))
}

/// The outcome of an API call from curl's output: a status of 400 or more,
/// or none, fails with the start of the body (its first 200 bytes, cut on
/// a character boundary); otherwise the call reports the status and the
/// body's size in bytes. The body is returned with the outcome.
/// The body of curl's output and its HTTP status.
fn split_output(raw: &str) -> (r: (String, u16))
    ensures
        r.0@ == split_status(raw@).0,
        r.1 == api_status(raw@),
{
    let c = chars_of(raw);
    let mut k: usize = c.len();
    while k > 0 && c[k - 1] != '\n'
        invariant
            k <= c@.len(),
            c@ == raw@,
            last_index(raw@, '\n', raw@.len()) == last_index(raw@, '\n', k as nat),
        decreases k,
    {
        k = k - 1;
    }
    let (body_c, status_c) = if k == 0 {
        (crate::text::copy_range(&c, 0, c.len()), chars_of("0"))
    } else {
        (crate::text::copy_range(&c, 0, k - 1), crate::text::copy_range(&c, k, c.len()))
    };
    proof {
        if k == 0 {
            assert(last_index(raw@, '\n', 0) is None);
            assert(body_c@ =~= raw@);
        } else {
            assert(raw@[k - 1] == '\n');
            assert(last_index(raw@, '\n', k as nat) == Some((k - 1) as nat));
            assert(body_c@ =~= raw@.take(k - 1));
            assert(status_c@ =~= raw@.skip(k as int));
        }
        assert(body_c@ == split_status(raw@).0);
        assert(status_c@ == split_status(raw@).1);
    }
    let body = string_of(&body_c);
    let st = trim_vec(&status_c);
    let status: u16 = match parse_u64_exec(&st) {
        Some(v) => if v <= 65535 {
            v as u16
        } else {
            0
        },
        None => 0,
    };
    (body, status)
}

/// Whether `api_outcome` can take this output: where it reports a failure,
/// the body's first 200 bytes end on a character boundary.
pub fn api_outcome_defined(raw: &str) -> (r: bool)
    ensures
        r == (api_status(raw@) >= 400 || api_status(raw@) == 0 ==> vstd::utf8::is_char_boundary(
            vstd::utf8::encode_utf8(split_status(raw@).0),
            cut200(split_status(raw@).0),
        )),
{
    let (body, status) = split_output(raw);
    if status >= 400 || status == 0 {
        let bs = body.as_str();
        let blen = bs.as_bytes().len();
        let cut = if blen < 200 {
            blen
        } else {
            200
        };
        bs.is_char_boundary(cut)
    } else {
        true
    }
}

pub fn api_outcome(method: &str, full_url: &str, raw: &str) -> (r: (Result<String, String>, String))
    requires
        api_status(raw@) >= 400 || api_status(raw@) == 0 ==> vstd::utf8::is_char_boundary(
            vstd::utf8::encode_utf8(split_status(raw@).0),
            cut200(split_status(raw@).0),
        ),
    ensures
        r.1@ == split_status(raw@).0,
        ({
            let status = api_status(raw@);
            let body = split_status(raw@).0;
            let blen = vstd::utf8::encode_utf8(body).len();
            if status >= 400 || status == 0 {
                exists|head: Seq<char>|
                    #[trigger] head200(body, head) && (r.0 matches Err(e) && e@ == "api_call "@ + method@ + " "@ + full_url@
                        + ": HTTP "@ + decimal_nat(status as nat) + " — "@ + head)
            } else {
                r.0 matches Ok(m) && m@ == "api_call "@ + method@ + " "@ + full_url@ + " → "@
                    + decimal_nat(status as nat) + " ("@ + decimal_nat(blen as nat) + " bytes)"@
            }
        }),
{
    let (body, status) = split_output(raw);
    let bs = body.as_str();
    let bytes = bs.as_bytes();
    let blen = bytes.len();
    assert(blen == vstd::utf8::encode_utf8(split_status(raw@).0).len());
    if status >= 400 || status == 0 {
        let cut = if blen < 200 {
            blen
        } else {
            200
        };
        let (head, _) = bs.split_at(cut);
        let ghost hv = head@;
        let mut v: Vec<char> = Vec::new();
        push_str(&mut v, "api_call ");
        push_str(&mut v, method);
        push_str(&mut v, " ");
        push_str(&mut v, full_url);
        push_str(&mut v, ": HTTP ");
        push_u64(&mut v, status as u64);
        push_str(&mut v, " — ");
        push_str(&mut v, head);
        assert(v@ =~= "api_call "@ + method@ + " "@ + full_url@ + ": HTTP "@ + decimal_nat(
            status as nat,
        ) + " — "@ + hv);
        assert(vstd::utf8::encode_utf8(hv) == head.spec_bytes());
        assert(cut as int == cut200(split_status(raw@).0));
        assert(head200(split_status(raw@).0, hv));
        assert(status == api_status(raw@));
        let e = string_of(&v);
        (Err(e), body)
    } else {
        let mut v: Vec<char> = Vec::new();
        push_str(&mut v, "api_call ");
        push_str(&mut v, method);
        push_str(&mut v, " ");
        push_str(&mut v, full_url);
        push_str(&mut v, " → ");
        push_u64(&mut v, status as u64);
        push_str(&mut v, " (");
        push_u64(&mut v, blen as u64);
        push_str(&mut v, " bytes)");
        assert(v@ =~= "api_call "@ + method@ + " "@ + full_url@ + " → "@ + decimal_nat(
            status as nat,
        ) + " ("@ + decimal_nat(blen as nat) + " bytes)"@);
        assert(status == api_status(raw@));
        (Ok(string_of(&v)), body)
    }
}

// ---------------------------------------------------------------------------
// Assertions
// ---------------------------------------------------------------------------

/// The activity line of a `dumpsys activity activities | grep` answer: its
/// first line, trimmed.
pub open spec fn activity_line(out: Seq<char>) -> Seq<char> {
    if lines(out).len() > 0 {
        trim(lines(out)[0])
    } else {
        seq![]
    }
}

pub fn current_activity(out: &str) -> (r: String)
    ensures
        r@ == activity_line(out@),
{
    let c = chars_of(out);
    let ls = lines_vec(&c);
    assert(ls.deep_view().len() == ls@.len());
    if ls.len() > 0 {
        proof {
            lemma_deep_view_chars(ls[0]);
        }
        string_of(&trim_vec(&ls[0]))
    } else {
        String::new()
    }
}

/// `assert: activity`: the current activity contains the expected one.
pub fn assert_activity(expected: Option<&str>, current: &str) -> (r: Result<String, String>)
    ensures
        match expected {
            None => r matches Err(e) && e@ == "assert activity: no expected"@,
            Some(x) => if contains(current@, x@) {
                r matches Ok(m) && m@ == "activity matches: "@ + current@
            } else {
                r matches Err(e) && e@ == "expected activity "@ + x@ + ", got "@ + current@
            },
        },
{
    match expected {
        None => Err(s("assert activity: no expected")),
        Some(x) => {
            if contains_exec(&chars_of(current), &chars_of(x)) {
                Ok(cat2("activity matches: ", current))
            } else {
                let mut v: Vec<char> = Vec::new();
                push_str(&mut v, "expected activity ");
                push_str(&mut v, x);
                push_str(&mut v, ", got ");
                push_str(&mut v, current);
                assert(v@ =~= "expected activity "@ + x@ + ", got "@ + current@);
                Err(string_of(&v))
            }
        },
    }
}

/// An element chunk names `id` as its (platform) id, quoted.
pub open spec fn names_id(e: Seq<char>, id: Seq<char>) -> bool {
    contains(e, "platform_id: \""@ + id + "\""@) || contains(e, "id: \""@ + id + "\""@)
}

fn names_id_exec(e: &str, id: &str) -> (r: bool)
    ensures
        r == names_id(e@, id@),
{
    let c = chars_of(e);
    let p1 = cat3("platform_id: \"", id, "\"");
    let p2 = cat3("id: \"", id, "\"");
    contains_exec(&c, &chars_of(p1.as_str())) || contains_exec(&c, &chars_of(p2.as_str()))
}

fn contains_lower(e: &str, f: &str) -> (r: bool)
    ensures
        r == contains(lowercase(e@), lowercase(f@)),
{
    let le = to_lowercase(e);
    let lf = to_lowercase(f);
    contains_exec(&chars_of(le.as_str()), &chars_of(lf.as_str()))
}

/// The target matches an element chunk for `element_not_exists`: by id
/// when it has one, and by fuzzy text when it has one.
pub open spec fn absent_match(e: Seq<char>, t: Option<Target>) -> bool {
    (match t {
        Some(tt) => match tt.id {
            Some(id) => names_id(e, id@),
            None => true,
        },
        None => true,
    }) && (match t {
        Some(tt) => match tt.content_fuzzy {
            Some(f) => contains(lowercase(e), lowercase(f@)),
            None => true,
        },
        None => true,
    })
}

/// How `element_not_exists` names its target: the fuzzy text, else the id,
/// else `(unnamed)`.
pub open spec fn absent_desc(t: Option<Target>) -> Seq<char> {
    match t {
        Some(tt) => match tt.content_fuzzy {
            Some(f) => f@,
            None => match tt.id {
                Some(i) => i@,
                None => "(unnamed)"@,
            },
        },
        None => "(unnamed)"@,
    }
}

/// `assert: element_not_exists` over the agent's element chunks.
pub fn assert_not_exists(elements: &Vec<String>, target: &Option<Target>) -> (r: Result<String, String>)
    ensures
        (exists|i: int| 0 <= i < elements@.len() && absent_match(#[trigger] elements@[i]@, *target))
            ==> (r matches Err(e) && e@ == "element should not exist but found: "@ + absent_desc(*target)),
        !(exists|i: int| 0 <= i < elements@.len() && absent_match(#[trigger] elements@[i]@, *target))
            ==> (r matches Ok(m) && m@ == "correctly absent: "@ + absent_desc(*target)),
{
    let desc: &str = match target {
        Some(t) => match &t.content_fuzzy {
            Some(f) => f.as_str(),
            None => match &t.id {
                Some(i) => i.as_str(),
                None => "(unnamed)",
            },
        },
        None => "(unnamed)",
    };
    assert(desc@ == absent_desc(*target));
    let mut i: usize = 0;
    while i < elements.len()
        invariant
            i <= elements@.len(),
            desc@ == absent_desc(*target),
            forall|j: int| 0 <= j < i ==> !absent_match(#[trigger] elements@[j]@, *target),
        decreases elements@.len() - i,
    {
        let e = elements[i].as_str();
        let idm = match target {
            Some(t) => match &t.id {
                Some(id) => names_id_exec(e, id.as_str()),
                None => true,
            },
            None => true,
        };
        let fm = match target {
            Some(t) => match &t.content_fuzzy {
                Some(f) => contains_lower(e, f.as_str()),
                None => true,
            },
            None => true,
        };
        if idm && fm {
            assert(absent_match(elements@[i as int]@, *target));
            return Err(cat2("element should not exist but found: ", desc));
        }
        i = i + 1;
    }
    Ok(cat2("correctly absent: ", desc))
}

/// The first element chunk that `element_state` looks at: by id when the
/// target has a non-empty one, else by (resolved) fuzzy text.
pub open spec fn state_pick(elements: Seq<Seq<char>>, id: Option<Seq<char>>, fuzzy: Option<Seq<char>>, k: nat) -> Option<Seq<char>>
    decreases elements.len() - k,
{
    if k >= elements.len() {
        None
    } else if (match id {
        Some(i) => names_id(elements[k as int], i),
        None => match fuzzy {
            Some(f) => contains(lowercase(elements[k as int]), lowercase(f)),
            None => false,
        },
    }) {
        Some(elements[k as int])
    } else {
        state_pick(elements, id, fuzzy, k + 1)
    }
}

fn pick_state_element(elements: &Vec<String>, id: Option<&str>, fuzzy: Option<&str>) -> (r: Option<usize>)
    ensures
        match r {
            Some(k) => k < elements@.len() && state_pick(strings_view(elements@), opt_str_view(id), opt_str_view(fuzzy), 0)
                == Some(elements@[k as int]@),
            None => state_pick(strings_view(elements@), opt_str_view(id), opt_str_view(fuzzy), 0) is None,
        },
{
    let ghost ev = strings_view(elements@);
    let mut k: usize = 0;
    while k < elements.len()
        invariant
            k <= elements@.len(),
            ev == strings_view(elements@),
            state_pick(ev, opt_str_view(id), opt_str_view(fuzzy), 0) == state_pick(
                ev,
                opt_str_view(id),
                opt_str_view(fuzzy),
                k as nat,
            ),
        decreases elements@.len() - k,
    {
        let e = elements[k].as_str();
        let m = match id {
            Some(i) => names_id_exec(e, i),
            None => match fuzzy {
                Some(f) => contains_lower(e, f),
                None => false,
            },
        };
        if m {
            return Some(k);
        }
        k = k + 1;
    }
    None
}

/// `assert: element_state`. `id` is the target's id when non-empty,
/// `fuzzy` its fuzzy text with fixtures resolved; `enabled` the expected
/// state, checked against `clickable: true` in the element.
pub fn assert_element_state(
    elements: &Vec<String>,
    id: Option<&str>,
    fuzzy: Option<&str>,
    enabled: Option<bool>,
) -> (r: Result<String, String>)
    requires
        id matches Some(i) ==> i@.len() > 0,
    ensures
        ({
            let ev = strings_view(elements@);
            let idv = opt_str_view(id);
            let fv = opt_str_view(fuzzy);
            let desc = match idv {
                Some(i) => i,
                None => match fv {
                    Some(f) => f,
                    None => seq![],
                },
            };
            if idv is None && fv is None {
                r matches Err(e) && e@ == "assert element_state: needs id or content_fuzzy"@
            } else {
                match state_pick(ev, idv, fv, 0) {
                    None => r matches Err(e) && e@ == "element not found: "@ + desc,
                    Some(el) => match enabled {
                        Some(x) if x != contains(el, "clickable: true"@) => r matches Err(e) && e@
                            == "expected enabled="@ + (if x {
                            "true"@
                        } else {
                            "false"@
                        }) + ", got clickable="@ + (if contains(el, "clickable: true"@) {
                            "true"@
                        } else {
                            "false"@
                        }),
                        _ => r matches Ok(m) && m@ == "element state OK: "@ + desc,
                    },
                }
            }
        }),
{
    if id.is_none() && fuzzy.is_none() {
        return Err(s("assert element_state: needs id or content_fuzzy"));
    }
    let picked = pick_state_element(elements, id, fuzzy);
    let desc: &str = match id {
        Some(i) => i,
        None => match fuzzy {
            Some(f) => f,
            None => "",
        },
    };
    proof {
        reveal_strlit("");
    }
    match picked {
        None => Err(cat2("element not found: ", desc)),
        Some(k) => {
            let el = elements[k].as_str();
            let clickable = contains_exec(&chars_of(el), &chars_of("clickable: true"));
            match enabled {
                Some(x) => {
                    if x != clickable {
                        let mut v: Vec<char> = Vec::new();
                        push_str(&mut v, "expected enabled=");
                        push_str(
                            &mut v,
                            if x {
                                "true"
                            } else {
                                "false"
                            },
                        );
                        push_str(&mut v, ", got clickable=");
                        push_str(
                            &mut v,
                            if clickable {
                                "true"
                            } else {
                                "false"
                            },
                        );
                        assert(v@ =~= "expected enabled="@ + (if x {
                            "true"@
                        } else {
                            "false"@
                        }) + ", got clickable="@ + (if clickable {
                            "true"@
                        } else {
                            "false"@
                        }));
                        return Err(string_of(&v));
                    }
                },
                None => {},
            }
            Ok(cat2("element state OK: ", desc))
        },
    }
}

/// `unknown assert: {name}`
pub fn unknown_assert(name: &str) -> (r: String)
    ensures
        r@ == "unknown assert: "@ + name@,
{
    cat2("unknown assert: ", name)
}

/// The seconds `element_exists` keeps polling: the timeout, at most 15.
pub fn poll_secs(timeout: u64) -> (r: u64)
    ensures
        r == if timeout < 15 {
            timeout
        } else {
            15
        },
{
    if timeout < 15 {
        timeout
    } else {
        15
    }
}

/// The uiautomator dump shows the target: its fuzzy text or the expected
/// text (case-insensitively), or its id.
pub open spec fn seen_in_ui(ui: Seq<char>, fuzzy: Option<Seq<char>>, id: Option<Seq<char>>, text: Option<Seq<char>>) -> bool {
    (match fuzzy {
        Some(f) => contains(lowercase(ui), lowercase(f)),
        None => false,
    }) || (match id {
        Some(i) => contains(ui, i),
        None => false,
    }) || (match text {
        Some(t) => contains(lowercase(ui), lowercase(t)),
        None => false,
    })
}

pub fn found_in_ui_dump(ui: &str, fuzzy: Option<&str>, id: Option<&str>, text: Option<&str>) -> (r: bool)
    ensures
        r == seen_in_ui(ui@, opt_str_view(fuzzy), opt_str_view(id), opt_str_view(text)),
{
    let a = match fuzzy {
        Some(f) => contains_lower(ui, f),
        None => false,
    };
    let b = match id {
        Some(i) => contains_exec(&chars_of(ui), &chars_of(i)),
        None => false,
    };
    let c = match text {
        Some(t) => contains_lower(ui, t),
        None => false,
    };
    a || b || c
}

/// The activity dump shows the fuzzy text (case-insensitively).
pub fn found_in_activity_dump(dump: &str, fuzzy: Option<&str>) -> (r: bool)
    ensures
        r == match opt_str_view(fuzzy) {
            Some(f) => contains(lowercase(dump@), lowercase(f)),
            None => false,
        },
{
    match fuzzy {
        Some(f) => contains_lower(dump, f),
        None => false,
    }
}

/// The element search of the activity source: a non-empty fuzzy text seen
/// in the dump is reported at the screen's middle.
pub fn activity_hit(dump: &str, fuzzy: &str) -> (r: Option<(i32, i32, String)>)
    ensures
        fuzzy@.len() > 0 && contains(lowercase(dump@), lowercase(fuzzy@)) ==> (r matches Some((x, y, d))
            && x == 540 && y == 1200 && d@ == "activity dump: "@ + fuzzy@),
        !(fuzzy@.len() > 0 && contains(lowercase(dump@), lowercase(fuzzy@))) ==> r is None,
{
    if !fuzzy.is_empty() && contains_lower(dump, fuzzy) {
        Some((540, 1200, cat2("activity dump: ", fuzzy)))
    } else {
        None
    }
}


/// An agent element chunk shows the target: its fuzzy text
/// (case-insensitively) or its id.
pub open spec fn seen_in_element(e: Seq<char>, fuzzy: Option<Seq<char>>, id: Option<Seq<char>>) -> bool {
    (match fuzzy {
        Some(f) => contains(lowercase(e), lowercase(f)),
        None => false,
    }) || (match id {
        Some(i) => contains(e, i),
        None => false,
    })
}

/// Index of the first chunk at or after `i` that shows the fuzzy text.
pub open spec fn first_fuzzy_from(es: Seq<Seq<char>>, f: Seq<char>, i: nat) -> Option<int>
    decreases es.len() - i,
{
    if i >= es.len() {
        None
    } else if contains(lowercase(es[i as int]), lowercase(f)) {
        Some(i as int)
    } else {
        first_fuzzy_from(es, f, i + 1)
    }
}

/// The content line reported for a hit among the agent's elements: that of
/// the first chunk showing the fuzzy text, or empty.
pub open spec fn semantic_hit_content(es: Seq<Seq<char>>, fuzzy: Option<Seq<char>>) -> Seq<char> {
    match fuzzy {
        Some(f) => match first_fuzzy_from(es, f, 0) {
            Some(i) => content_line(es[i]),
            None => seq![],
        },
        None => seq![],
    }
}

/// The last source an element check looks in, the agent's element chunks:
/// `found: {content line}` when one of them shows the target.
pub fn found_in_semantic(elements: &Vec<String>, fuzzy: Option<&str>, id: Option<&str>) -> (r: Option<String>)
    ensures
        (exists|k: int| 0 <= k < elements@.len() && seen_in_element(#[trigger] elements@[k]@, opt_str_view(fuzzy), opt_str_view(id)))
            ==> (r matches Some(m) && m@ == "found: "@ + semantic_hit_content(strings_view(elements@), opt_str_view(fuzzy))),
        !(exists|k: int| 0 <= k < elements@.len() && seen_in_element(#[trigger] elements@[k]@, opt_str_view(fuzzy), opt_str_view(id)))
            ==> r is None,
{
    let ghost fz = opt_str_view(fuzzy);
    let ghost iv = opt_str_view(id);
    let ghost es = strings_view(elements@);
    let mut k: usize = 0;
    let mut hit = false;
    while k < elements.len()
        invariant
            k <= elements@.len(),
            hit == exists|j: int| 0 <= j < k && seen_in_element(#[trigger] elements@[j]@, fz, iv),
            fz == opt_str_view(fuzzy),
            iv == opt_str_view(id),
        decreases elements@.len() - k,
    {
        let e = elements[k].as_str();
        let a = match fuzzy {
            Some(f) => contains_lower(e, f),
            None => false,
        };
        let b = match id {
            Some(i) => contains_exec(&chars_of(e), &chars_of(i)),
            None => false,
        };
        assert((a || b) == seen_in_element(elements@[k as int]@, fz, iv));
        hit = hit || a || b;
        k = k + 1;
    }
    if !hit {
        return None;
    }
    let mut content: Vec<char> = Vec::new();
    match fuzzy {
        Some(f) => {
            let mut i: usize = 0;
            let mut done = false;
            while i < elements.len() && !done
                invariant
                    i <= elements@.len(),
                    es == strings_view(elements@),
                    es.len() == elements@.len(),
                    fz == Some(f@),
                    !done ==> first_fuzzy_from(es, f@, 0) == first_fuzzy_from(es, f@, i as nat)
                        && content@ == Seq::<char>::empty(),
                    done ==> content@ == semantic_hit_content(es, fz),
                decreases elements@.len() - i + (if done { 0int } else { 1int }),
            {
                assert(es[i as int] == elements@[i as int]@);
                if contains_lower(elements[i].as_str(), f) {
                    assert(first_fuzzy_from(es, f@, i as nat) == Some(i as int));
                    content = content_line_exec(elements[i].as_str());
                    done = true;
                } else {
                    i = i + 1;
                }
            }
        },
        None => {},
    }
    let mut v: Vec<char> = Vec::new();
    push_str(&mut v, "found: ");
    push_chars(&mut v, &content);
    Some(string_of(&v))
}
} // verus!
