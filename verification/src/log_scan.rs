//! Quota lines in client logs.
//!
//! A log is scanned line by line. Lines before a quota line supply its context:
//! the account that logged in, the model that a session or a request uses. Lines
//! that merely carry the output of a tool are passed over, for they may quote
//! other logs.
use vstd::prelude::*;
use vstd::slice::slice_subrange;
use crate::clock;
use crate::clock::Wall;
use crate::json;
use crate::paths;
use crate::text;
use crate::text::same;
use crate::textmap;
use crate::textmap::TextMap;
use crate::variant;

verus! {

/// Line marks. A quota line carries one of these texts (Chinese or English client).
pub const QUOTA_ZH: &'static str = "超出频率限制";

pub const QUOTA_EN: &'static str = "usage exceeds frequency limit";

/// The reset time follows one of these texts.
pub const RESET_ZH: &'static str = "将在 ";

pub const RESET_EN: &'static str = "will reset at ";

/// Mark of the line by which the command line client reports the account it logged in.
pub const CLI_AUTH_MARKER: &'static str = "[AuthDoInitProbe]";

/// Mark of the line by which an editor reports the account it logged in.
pub const IDE_AUTH_MARKER: &'static str = "[PulseServiceLifecycle] Auth session changed:";

/// The model field of an editor's lines.
pub const IDE_MODEL_FIELD: &'static str = "modelId=";

/// Mark of an editor's failed call; its model stands for the whole file.
pub const IDE_AUTH_ERROR_MARKER: &'static str = "[handleAuthError]";

/// Bracket tags that carry an editor's conversation.
pub const IDE_ACP_AGENT_TAG: &'static str = "AcpAgent:";

pub const IDE_ACP_CONNECTION_TAG: &'static str = "AcpConnection:";

/// A line that classifies a refusal, and the class that counts.
pub const CLASSIFIER_MARKER: &'static str = "refusal classified";

pub const CLASSIFIER_CATEGORY: &'static str = "category=quota";

/// How long after a classifier line a quota line without identity may borrow its session.
pub const CLASSIFIER_FALLBACK_MS: i64 = 2_000;

/// A session's current model.
pub const RESOLVED_MODEL_MARKER: &'static str = "resolved model=";

/// A request sent from a session log; it names the model but no session.
pub const SDK_SEND_PROMPT_MARKER: &'static str = "method:sendPrompt";

/// Marks of lines that merely carry the output of a tool.
pub const TRANSPORT_TAG: &'static str = "SandboxShell";

pub const TRANSPORT_OUTPUT_MARKER: &'static str = "ProcessOutput";

pub const SANDBOX_OUTPUT_MARKER: &'static str = "sandbox attempt output";

/// Bytes of a long line's head and tail in which fields are looked for.
pub const LONG_LINE_SNIFF_BYTES: usize = 4096;

/// Time formats at the head of a line.
pub const IDE_TS_FORMAT: &'static str = "%Y-%m-%d %H:%M:%S%.3f";

pub const IDE_TS_LEN: usize = 23;

pub const BUSINESS_TS_FORMAT: &'static str = "%m/%d/%Y, %I:%M:%S %p%.3f";

pub const BUSINESS_TS_ALT_FORMAT: &'static str = "%Y/%m/%d %H:%M:%S%.3f";

pub const RESET_FORMAT: &'static str = "%Y-%m-%d %H:%M:%S";

/// The first of two optional values that is there.
pub open spec fn either<T>(a: Option<T>, b: Option<T>) -> Option<T> {
    match a {
        Some(x) => Some(x),
        None => b,
    }
}

/// A character of a field name: the dot counts, so that `requestOptions.model=`
/// is not the field `model=`.
pub open spec fn field_char(c: char) -> bool {
    text::digit(c) || 'a' <= c <= 'z' || 'A' <= c <= 'Z' || c == '_' || c == '.'
}

pub fn is_field_char(c: char) -> (b: bool)
    ensures
        b == field_char(c),
{
    let n: u32 = c as u32;
    text::is_digit(c) || (97 <= n && n <= 122) || (65 <= n && n <= 90) || n == 95 || n == 46
}

/// A field name begins at `i`: no field character stands before it.
pub open spec fn field_start(line: Seq<char>, i: int) -> bool {
    i == 0 || !field_char(line[i - 1])
}

/// The value of a field whose value begins at `i`.
pub open spec fn field_value_at(line: Seq<char>, i: int) -> Seq<char> {
    let rest = line.subrange(i, line.len() as int);
    let stops = seq![',', ' ', '"', '}', ')'];
    text::trim(rest.subrange(0, text::until(rest, |x: char| stops.contains(x))))
}

/// The first non-empty value of the field `key` at or after `from`.
pub open spec fn field_from(line: Seq<char>, key: Seq<char>, from: int) -> Option<Seq<char>>
    decreases line.len() - from,
    via field_from_decreases
{
    if key.len() == 0 || from < 0 {
        None
    } else {
        match text::find_from(line, key, from) {
            None => None,
            Some(i) => if field_start(line, i) && field_value_at(line, i + key.len()).len() > 0 {
                Some(field_value_at(line, i + key.len()))
            } else {
                field_from(line, key, i + key.len())
            },
        }
    }
}

#[via_fn]
proof fn field_from_decreases(line: Seq<char>, key: Seq<char>, from: int) {
    if key.len() > 0 && from >= 0 {
        text::find_is_first(line, key, from);
    }
}

/// The value of the field `key` of a line.
pub open spec fn field(line: Seq<char>, key: Seq<char>) -> Option<Seq<char>> {
    field_from(line, key, 0)
}

/// The value of the field `key`, up to a comma, space, quote or closing
/// bracket. The key must begin at a field boundary.
pub fn field_after<'a>(line: &'a [char], key: &str) -> (r: Option<&'a [char]>)
    ensures
        text::opt_slice(r) == field(line@, key@),
{
    let name: Vec<char> = text::chars_of(key);
    if name.len() == 0 {
        return None;
    }
    let stops: [char; 5] = [',', ' ', '"', '}', ')'];
    let mut from: usize = 0;
    while from <= line.len()
        invariant
            from <= line@.len(),
            name@ == key@,
            key@.len() > 0,
            stops@ == seq![',', ' ', '"', '}', ')'],
            field(line@, key@) == field_from(line@, key@, from as int),
        decreases line@.len() - from,
    {
        match text::find_slice_from(line, name.as_slice(), from) {
            None => {
                return None;
            },
            Some(i) => {
                if i == 0 || !is_field_char(line[i - 1]) {
                    let rest: &[char] = slice_subrange(line, i + name.len(), line.len());
                    let end: usize = text::until_any(rest, &stops);
                    let value: &[char] = text::trim_slice(slice_subrange(rest, 0, end));
                    if value.len() > 0 {
                        return Some(value);
                    }
                }
                from = i + name.len();
            },
        }
    }
    None
}

/// The model name that follows position `i`, if there is one.
pub open spec fn model_at(line: Seq<char>, i: int) -> Option<Seq<char>> {
    let rest = line.subrange(i, line.len() as int);
    let stops = seq![',', ' ', ';'];
    let value = text::trim(rest.subrange(0, text::until(rest, |x: char| stops.contains(x))));
    if value.len() > 0 {
        Some(value)
    } else {
        None
    }
}

fn model_from<'a>(line: &'a [char], i: usize) -> (r: Option<&'a [char]>)
    requires
        i <= line@.len(),
    ensures
        text::opt_slice(r) == model_at(line@, i as int),
{
    let stops: [char; 3] = [',', ' ', ';'];
    let rest: &[char] = slice_subrange(line, i, line.len());
    let end: usize = text::until_any(rest, &stops);
    assert(stops@ =~= seq![',', ' ', ';']);
    let value: &[char] = text::trim_slice(slice_subrange(rest, 0, end));
    if value.len() > 0 {
        Some(value)
    } else {
        None
    }
}

/// The model name after the first `marker` of a line.
pub open spec fn model_mark(line: Seq<char>, marker: Seq<char>) -> Option<Seq<char>> {
    match text::find(line, marker) {
        Some(i) => model_at(line, i + marker.len()),
        None => None,
    }
}

/// The model name after the first `marker` of a line.
pub fn model_after<'a>(line: &'a [char], marker: &str) -> (r: Option<&'a [char]>)
    ensures
        text::opt_slice(r) == model_mark(line@, marker@),
{
    let mark: Vec<char> = text::chars_of(marker);
    match text::find_slice(line, mark.as_slice()) {
        Some(i) => model_from(line, i + mark.len()),
        None => None,
    }
}

/// The model name after the first `key` at or after `from` that begins a field.
pub open spec fn model_field_from(line: Seq<char>, key: Seq<char>, from: int) -> Option<Seq<char>>
    decreases line.len() - from,
    via model_field_from_decreases
{
    if key.len() == 0 || from < 0 {
        None
    } else {
        match text::find_from(line, key, from) {
            None => None,
            Some(i) => if field_start(line, i) {
                model_at(line, i + key.len())
            } else {
                model_field_from(line, key, i + key.len())
            },
        }
    }
}

#[via_fn]
proof fn model_field_from_decreases(line: Seq<char>, key: Seq<char>, from: int) {
    if key.len() > 0 && from >= 0 {
        text::find_is_first(line, key, from);
    }
}

/// The model name of the first field `key` of a line.
pub open spec fn model_field(line: Seq<char>, key: Seq<char>) -> Option<Seq<char>> {
    model_field_from(line, key, 0)
}

/// The model name of the first field `key` that begins at a field boundary.
pub fn field_model<'a>(line: &'a [char], key: &str) -> (r: Option<&'a [char]>)
    ensures
        text::opt_slice(r) == model_field(line@, key@),
{
    let name: Vec<char> = text::chars_of(key);
    if name.len() == 0 {
        return None;
    }
    let mut from: usize = 0;
    while from <= line.len()
        invariant
            from <= line@.len(),
            name@ == key@,
            key@.len() > 0,
            model_field(line@, key@) == model_field_from(line@, key@, from as int),
        decreases line@.len() - from,
    {
        match text::find_slice_from(line, name.as_slice(), from) {
            None => {
                return None;
            },
            Some(i) => {
                if i == 0 || !is_field_char(line[i - 1]) {
                    return model_from(line, i + name.len());
                }
                from = i + name.len();
            },
        }
    }
    None
}

/// A usable model name: not blank, and none of the words that mean "not known".
pub open spec fn known(value: Seq<char>) -> bool {
    let v = text::trim(value);
    v.len() > 0 && v != "auto"@ && v != "undefined"@ && v != "null"@
}

pub fn known_model(value: &[char]) -> (b: bool)
    ensures
        b == known(value@),
{
    let v: &[char] = text::trim_slice(value);
    v.len() > 0 && !text::slice_is(v, "auto") && !text::slice_is(v, "undefined") && !text::slice_is(
        v,
        "null",
    )
}

/// The value, where it is a usable model name.
pub open spec fn if_known(o: Option<Seq<char>>) -> Option<Seq<char>> {
    match o {
        Some(v) => if known(v) {
            Some(v)
        } else {
            None
        },
        None => None,
    }
}

fn keep_known<'a>(o: Option<&'a [char]>) -> (r: Option<&'a [char]>)
    ensures
        text::opt_slice(r) == if_known(text::opt_slice(o)),
{
    match o {
        Some(v) => {
            if known_model(v) {
                Some(v)
            } else {
                None
            }
        },
        None => None,
    }
}

/// The model that an editor's line names in its `modelId=` field.
pub open spec fn ide_model(line: Seq<char>) -> Option<Seq<char>> {
    if_known(model_field(line, IDE_MODEL_FIELD@))
}

pub fn ide_model_id<'a>(line: &'a [char]) -> (r: Option<&'a [char]>)
    ensures
        text::opt_slice(r) == ide_model(line@),
{
    keep_known(field_model(line, IDE_MODEL_FIELD))
}

/// A hexadecimal digit or a hyphen.
pub open spec fn hex_char(c: char) -> bool {
    text::digit(c) || 'a' <= c <= 'f' || 'A' <= c <= 'F' || c == '-'
}

fn is_hex_char(c: char) -> (b: bool)
    ensures
        b == hex_char(c),
{
    let n: u32 = c as u32;
    text::is_digit(c) || (97 <= n && n <= 102) || (65 <= n && n <= 70) || n == 45
}

/// An identifier of `len` hexadecimal digits and hyphens.
pub open spec fn hex_id(s: Seq<char>, len: int) -> bool {
    s.len() == len && forall|i: int| 0 <= i < s.len() ==> hex_char(#[trigger] s[i])
}

pub fn is_hex_id(s: &[char], len: usize) -> (b: bool)
    ensures
        b == hex_id(s@, len as int),
{
    if s.len() != len {
        return false;
    }
    let mut i: usize = 0;
    while i < s.len()
        invariant
            i <= s@.len(),
            s@.len() == len,
            forall|j: int| 0 <= j < i ==> hex_char(#[trigger] s@[j]),
        decreases s@.len() - i,
    {
        if !is_hex_char(s[i]) {
            assert(!hex_char(s@[i as int]));
            return false;
        }
        i += 1;
    }
    true
}

/// A conversation of an editor: 32 digits, or 36 with hyphens.
pub open spec fn ide_session(s: Seq<char>) -> bool {
    hex_id(s, 32) || hex_id(s, 36)
}

pub fn is_ide_session_id(s: &[char]) -> (b: bool)
    ensures
        b == ide_session(s@),
{
    is_hex_id(s, 32) || is_hex_id(s, 36)
}

/// Request and session of a bracketed `request/session`.
pub open spec fn id_pair(s: Seq<char>) -> Option<(Seq<char>, Seq<char>)> {
    let k = text::until(s, |x: char| x == '/');
    if k < s.len() && hex_id(s.subrange(0, k), 32) && hex_id(s.subrange(k + 1, s.len() as int), 36) {
        Some((s.subrange(0, k), s.subrange(k + 1, s.len() as int)))
    } else {
        None
    }
}

/// The last bracketed pair of identifiers at or after `from`, or `found`.
pub open spec fn pair_from(
    line: Seq<char>,
    from: int,
    found: Option<(Seq<char>, Seq<char>)>,
) -> Option<(Seq<char>, Seq<char>)>
    decreases line.len() - from,
    via pair_from_decreases
{
    let rest = line.subrange(from, line.len() as int);
    let o = text::until(rest, |x: char| x == '(');
    let inner = rest.subrange(o + 1, rest.len() as int);
    let e = text::until(inner, |x: char| x == ')');
    if from < 0 || from > line.len() || o >= rest.len() || e >= inner.len() {
        found
    } else {
        pair_from(line, from + o + 1 + e, either(id_pair(inner.subrange(0, e)), found))
    }
}

#[via_fn]
proof fn pair_from_decreases(line: Seq<char>, from: int, found: Option<(Seq<char>, Seq<char>)>) {
    if 0 <= from <= line.len() {
        let rest = line.subrange(from, line.len() as int);
        let o = text::until(rest, |x: char| x == '(');
        text::until_is_prefix(rest, |x: char| x == '(');
        if o < rest.len() {
            let inner = rest.subrange(o + 1, rest.len() as int);
            text::until_is_prefix(inner, |x: char| x == ')');
        }
    }
}

/// The texts of an optional pair of slices.
pub open spec fn opt_pair(o: Option<(&[char], &[char])>) -> Option<(Seq<char>, Seq<char>)> {
    match o {
        Some(p) => Some((p.0@, p.1@)),
        None => None,
    }
}

fn pair_of<'a>(s: &'a [char]) -> (r: Option<(&'a [char], &'a [char])>)
    ensures
        opt_pair(r) == id_pair(s@),
{
    let k: usize = text::until_char(s, '/');
    if k < s.len() {
        let request: &[char] = slice_subrange(s, 0, k);
        let session: &[char] = slice_subrange(s, k + 1, s.len());
        if is_hex_id(request, 32) && is_hex_id(session, 36) {
            return Some((request, session));
        }
    }
    None
}

/// The last `(request/session)` of a line: 32 hexadecimal digits and a 36
/// character session.
pub fn request_pair<'a>(line: &'a [char]) -> (r: Option<(&'a [char], &'a [char])>)
    ensures
        opt_pair(r) == pair_from(line@, 0, None),
{
    let mut found: Option<(&'a [char], &'a [char])> = None;
    let mut from: usize = 0;
    loop
        invariant
            from <= line@.len(),
            pair_from(line@, 0, None) == pair_from(line@, from as int, opt_pair(found)),
        decreases line@.len() - from,
    {
        let rest: &'a [char] = slice_subrange(line, from, line.len());
        let o: usize = text::until_char(rest, '(');
        if o == rest.len() {
            return found;
        }
        let inner: &'a [char] = slice_subrange(rest, o + 1, rest.len());
        let e: usize = text::until_char(inner, ')');
        if e == inner.len() {
            return found;
        }
        match pair_of(slice_subrange(inner, 0, e)) {
            Some(p) => {
                found = Some(p);
            },
            None => {},
        }
        from = from + o + 1 + e;
    }
}

/// The value of `"key":"value"` whose key begins at `i`, in plain or escaped quotes.
pub open spec fn quoted_value_at(s: Seq<char>, key: Seq<char>, i: int) -> Option<Seq<char>> {
    let a = i + key.len();
    let b = if a < s.len() && s[a] == '\\' {
        a + 1
    } else {
        a
    };
    let c = if b + 2 < s.len() && s[b + 2] == '\\' {
        b + 3
    } else {
        b + 2
    };
    if i == 0 || s[i - 1] != '"' || b + 1 >= s.len() || s[b] != '"' || s[b + 1] != ':' || c >= s.len() || s[c]
        != '"' {
        None
    } else {
        let rest = s.subrange(c + 1, s.len() as int);
        let e = text::until(rest, |x: char| x == '"');
        let raw = rest.subrange(0, e);
        let value = text::trim(
            if e > 0 && raw[e - 1] == '\\' {
                raw.subrange(0, e - 1)
            } else {
                raw
            },
        );
        if e < rest.len() && value.len() > 0 {
            Some(value)
        } else {
            None
        }
    }
}

fn quoted_value<'a>(s: &'a [char], key_len: usize, i: usize, Ghost(key): Ghost<Seq<char>>) -> (r: Option<&'a [char]>)
    requires
        key.len() == key_len,
        i + key_len <= s@.len() <= usize::MAX,
    ensures
        text::opt_slice(r) == quoted_value_at(s@, key, i as int),
{
    if i == 0 || s[i - 1] != '"' {
        return None;
    }
    let mut b: usize = i + key_len;
    if b < s.len() && s[b] == '\\' {
        b += 1;
    }
    if b >= s.len() || s.len() - b < 2 || s[b] != '"' || s[b + 1] != ':' {
        return None;
    }
    let mut c: usize = b + 2;
    if c < s.len() && s[c] == '\\' {
        c += 1;
    }
    if c >= s.len() || s[c] != '"' {
        return None;
    }
    let rest: &[char] = slice_subrange(s, c + 1, s.len());
    let e: usize = text::until_char(rest, '"');
    if e == rest.len() {
        return None;
    }
    let end: usize = if e > 0 && rest[e - 1] == '\\' {
        e - 1
    } else {
        e
    };
    let ghost raw = rest@.subrange(0, e as int);
    assert(end < e ==> raw.subrange(0, e - 1) =~= rest@.subrange(0, end as int));
    let value: &[char] = text::trim_slice(slice_subrange(rest, 0, end));
    if value.len() > 0 {
        Some(value)
    } else {
        None
    }
}

/// The first value of `"key":"value"` at or after `from`.
pub open spec fn quoted_from(s: Seq<char>, key: Seq<char>, from: int) -> Option<Seq<char>>
    decreases s.len() - from,
    via quoted_from_decreases
{
    if key.len() == 0 || from < 0 {
        None
    } else {
        match text::find_from(s, key, from) {
            None => None,
            Some(i) => match quoted_value_at(s, key, i) {
                Some(v) => Some(v),
                None => quoted_from(s, key, i + key.len()),
            },
        }
    }
}

#[via_fn]
proof fn quoted_from_decreases(s: Seq<char>, key: Seq<char>, from: int) {
    if key.len() > 0 && from >= 0 {
        text::find_is_first(s, key, from);
    }
}

/// The first non-empty `"key":"value"` of a text; a value that the text's end
/// cuts off does not count.
pub fn json_field_in<'a>(s: &'a [char], key: &str) -> (r: Option<&'a [char]>)
    ensures
        text::opt_slice(r) == quoted_from(s@, key@, 0),
{
    let name: Vec<char> = text::chars_of(key);
    if name.len() == 0 {
        return None;
    }
    let mut from: usize = 0;
    while from <= s.len()
        invariant
            from <= s@.len(),
            name@ == key@,
            key@.len() > 0,
            quoted_from(s@, key@, 0) == quoted_from(s@, key@, from as int),
        decreases s@.len() - from,
    {
        match text::find_slice_from(s, name.as_slice(), from) {
            None => {
                return None;
            },
            Some(i) => {
                match quoted_value(s, name.len(), i, Ghost(key@)) {
                    Some(v) => {
                        return Some(v);
                    },
                    None => {},
                }
                from = i + name.len();
            },
        }
    }
    None
}

/// The head of a line that is looked at.
pub open spec fn head_of(line: Seq<char>) -> Seq<char> {
    line.subrange(0, text::fit_front(line, LONG_LINE_SNIFF_BYTES as int))
}

/// The tail of a line that is looked at.
pub open spec fn tail_of(line: Seq<char>) -> Seq<char> {
    line.subrange(line.len() - text::fit_back(line, LONG_LINE_SNIFF_BYTES as int), line.len() as int)
}

/// The longest head of the line within the sniffing window.
pub fn head_window<'a>(line: &'a [char]) -> (r: &'a [char])
    ensures
        r@ == head_of(line@),
{
    text::head_bytes(line, LONG_LINE_SNIFF_BYTES)
}

/// The longest tail of the line within the sniffing window.
pub fn tail_window<'a>(line: &'a [char]) -> (r: &'a [char])
    ensures
        r@ == tail_of(line@),
{
    text::tail_bytes(line, LONG_LINE_SNIFF_BYTES)
}

/// The value of `"key":"value"` in a line; of a long line only the head and the
/// tail are looked at.
pub open spec fn quoted(line: Seq<char>, key: Seq<char>) -> Option<Seq<char>> {
    if text::byte_len(line) <= LONG_LINE_SNIFF_BYTES {
        quoted_from(line, key, 0)
    } else {
        either(quoted_from(head_of(line), key, 0), quoted_from(tail_of(line), key, 0))
    }
}

pub fn json_field<'a>(line: &'a [char], key: &str) -> (r: Option<&'a [char]>)
    ensures
        text::opt_slice(r) == quoted(line@, key@),
{
    if text::fits_bytes(line, LONG_LINE_SNIFF_BYTES) {
        return json_field_in(line, key);
    }
    match json_field_in(head_window(line), key) {
        Some(v) => Some(v),
        None => json_field_in(tail_window(line), key),
    }
}

/// The conversation in the first bracket tag at or after `from` that holds one.
pub open spec fn tag_from(line: Seq<char>, tag: Seq<char>, from: int) -> Option<Seq<char>>
    decreases line.len() - from,
    via tag_from_decreases
{
    if tag.len() == 0 || from < 0 {
        None
    } else {
        match text::find_from(line, tag, from) {
            None => None,
            Some(i) => {
                let rest = line.subrange(i + tag.len(), line.len() as int);
                let value = text::trim(rest.subrange(0, text::until(rest, |x: char| x == ']')));
                if ide_session(value) {
                    Some(value)
                } else {
                    tag_from(line, tag, i + tag.len())
                }
            },
        }
    }
}

#[via_fn]
proof fn tag_from_decreases(line: Seq<char>, tag: Seq<char>, from: int) {
    if tag.len() > 0 && from >= 0 {
        text::find_is_first(line, tag, from);
    }
}

/// The conversation in a bracket tag such as `[AcpAgent:...]`.
pub fn bracket_tag_after<'a>(line: &'a [char], tag: &str) -> (r: Option<&'a [char]>)
    ensures
        text::opt_slice(r) == tag_from(line@, tag@, 0),
{
    let name: Vec<char> = text::chars_of(tag);
    if name.len() == 0 {
        return None;
    }
    let mut from: usize = 0;
    while from <= line.len()
        invariant
            from <= line@.len(),
            name@ == tag@,
            tag@.len() > 0,
            tag_from(line@, tag@, 0) == tag_from(line@, tag@, from as int),
        decreases line@.len() - from,
    {
        match text::find_slice_from(line, name.as_slice(), from) {
            None => {
                return None;
            },
            Some(i) => {
                let rest: &[char] = slice_subrange(line, i + name.len(), line.len());
                let end: usize = text::until_char(rest, ']');
                let value: &[char] = text::trim_slice(slice_subrange(rest, 0, end));
                if is_ide_session_id(value) {
                    return Some(value);
                }
                from = i + name.len();
            },
        }
    }
    None
}

/// The value, where it names a conversation.
pub open spec fn if_session(o: Option<Seq<char>>) -> Option<Seq<char>> {
    match o {
        Some(v) => if ide_session(v) {
            Some(v)
        } else {
            None
        },
        None => None,
    }
}

fn keep_session<'a>(o: Option<&'a [char]>) -> (r: Option<&'a [char]>)
    ensures
        text::opt_slice(r) == if_session(text::opt_slice(o)),
{
    match o {
        Some(v) => {
            if is_ide_session_id(v) {
                Some(v)
            } else {
                None
            }
        },
        None => None,
    }
}

/// The conversation that an editor's line names outside of quotes.
pub open spec fn ide_session_of(line: Seq<char>) -> Option<Seq<char>> {
    either(
        if_session(field(line, "conversationId="@)),
        either(tag_from(line, IDE_ACP_AGENT_TAG@, 0), tag_from(line, IDE_ACP_CONNECTION_TAG@, 0)),
    )
}

pub fn ide_session_id<'a>(line: &'a [char]) -> (r: Option<&'a [char]>)
    ensures
        text::opt_slice(r) == ide_session_of(line@),
{
    match keep_session(field_after(line, "conversationId=")) {
        Some(v) => Some(v),
        None => match bracket_tag_after(line, IDE_ACP_AGENT_TAG) {
            Some(v) => Some(v),
            None => bracket_tag_after(line, IDE_ACP_CONNECTION_TAG),
        },
    }
}

/// The conversation that an editor's line names.
pub open spec fn ide_conversation_of(line: Seq<char>) -> Option<Seq<char>> {
    either(ide_session_of(line), if_session(quoted(line, "conversationId"@)))
}

pub fn ide_conversation_id<'a>(line: &'a [char]) -> (r: Option<&'a [char]>)
    ensures
        text::opt_slice(r) == ide_conversation_of(line@),
{
    match ide_session_id(line) {
        Some(v) => Some(v),
        None => keep_session(json_field(line, "conversationId")),
    }
}

/// The model that an editor's line names in quotes.
pub open spec fn ide_quoted_model(line: Seq<char>) -> Option<Seq<char>> {
    if_known(quoted(line, "model"@))
}

pub fn ide_json_model<'a>(line: &'a [char]) -> (r: Option<&'a [char]>)
    ensures
        text::opt_slice(r) == ide_quoted_model(line@),
{
    keep_known(json_field(line, "model"))
}

/// ASCII white space.
pub open spec fn ascii_white(c: char) -> bool {
    c == ' ' || c == '\t' || c == '\n' || c == '\r' || c as u32 == 12
}

fn is_ascii_white(c: char) -> (b: bool)
    ensures
        b == ascii_white(c),
{
    let n: u32 = c as u32;
    n == 32 || n == 9 || n == 10 || n == 13 || n == 12
}

/// Where the bracketed tags that begin a line end, given that they reach `from`.
pub open spec fn tags_end(line: Seq<char>, from: int) -> int
    decreases line.len() - from,
    via tags_end_decreases
{
    let rest = line.subrange(from, line.len() as int);
    let w = text::until(rest, |x: char| !ascii_white(x));
    let tag = rest.subrange(w, rest.len() as int);
    let close = text::until(tag, |x: char| x == ']');
    if from < 0 || from > line.len() || w >= rest.len() || rest[w] != '[' || close >= tag.len() {
        from
    } else {
        tags_end(line, from + w + close + 1)
    }
}

#[via_fn]
proof fn tags_end_decreases(line: Seq<char>, from: int) {
    if 0 <= from <= line.len() {
        let rest = line.subrange(from, line.len() as int);
        let w = text::until(rest, |x: char| !ascii_white(x));
        text::until_is_prefix(rest, |x: char| !ascii_white(x));
        if w < rest.len() {
            text::until_is_prefix(rest.subrange(w, rest.len() as int), |x: char| x == ']');
        }
    }
}

/// The bracketed tags that begin a line.
pub open spec fn tags_of(line: Seq<char>) -> Seq<char> {
    line.subrange(0, tags_end(line, 0))
}

/// What follows the tags that begin a line.
pub open spec fn body_of(line: Seq<char>) -> Seq<char> {
    text::trim_start(line.subrange(tags_end(line, 0), line.len() as int))
}

/// A line that merely carries the output of a tool: its own tags or the head of
/// its body say so. What the body quotes does not count.
pub open spec fn transport(line: Seq<char>) -> bool {
    text::has(tags_of(line), TRANSPORT_TAG@) || text::starts_with(body_of(line), TRANSPORT_OUTPUT_MARKER@)
        || text::starts_with(body_of(line), SANDBOX_OUTPUT_MARKER@)
}

/// The length of the leading ASCII white space.
fn ascii_white_len(s: &[char]) -> (r: usize)
    ensures
        r == text::until(s@, |x: char| !ascii_white(x)),
        r <= s@.len(),
{
    let mut i: usize = 0;
    while i < s.len() && is_ascii_white(s[i])
        invariant
            i <= s@.len(),
            forall|j: int| 0 <= j < i ==> ascii_white(s@[j]),
        decreases s@.len() - i,
    {
        i += 1;
    }
    proof {
        text::until_unique(s@, |x: char| !ascii_white(x), i as int);
    }
    i
}

/// Splits a line into the bracketed tags at its head and its body.
pub fn split_logger_tags<'a>(line: &'a [char]) -> (r: (&'a [char], &'a [char]))
    ensures
        r.0@ == tags_of(line@),
        r.1@ == body_of(line@),
{
    let mut cursor: usize = 0;
    loop
        invariant
            cursor <= line@.len(),
            tags_end(line@, 0) == tags_end(line@, cursor as int),
        ensures
            cursor <= line@.len(),
            tags_end(line@, 0) == cursor,
        decreases line@.len() - cursor,
    {
        let rest: &[char] = slice_subrange(line, cursor, line.len());
        let w: usize = ascii_white_len(rest);
        if w >= rest.len() || rest[w] != '[' {
            break;
        }
        let tag: &[char] = slice_subrange(rest, w, rest.len());
        let close: usize = text::until_char(tag, ']');
        if close == tag.len() {
            break;
        }
        cursor = cursor + w + close + 1;
    }
    (
        slice_subrange(line, 0, cursor),
        text::trim_start_slice(slice_subrange(line, cursor, line.len())),
    )
}

pub fn is_transport_line(line: &[char]) -> (b: bool)
    ensures
        b == transport(line@),
{
    let (tags, body) = split_logger_tags(line);
    text::has_slice(tags, TRANSPORT_TAG) || text::slice_starts_with(body, TRANSPORT_OUTPUT_MARKER)
        || text::slice_starts_with(body, SANDBOX_OUTPUT_MARKER)
}

/// The two families of log lines.
#[derive(Clone, Copy, Debug, PartialEq, Eq, Structural)]
pub enum LogFormat {
    /// `[9/15/2026, 6:19:48 PM.755] ... (request/session)`: WorkBuddy and the command line client.
    WorkBuddy,
    /// `2026-09-17 10:28:26.730 [info] ...`: the two editors.
    Ide,
}

/// The line that tells which account is logged in.
#[derive(Clone, Copy, Debug, PartialEq, Eq, Structural)]
pub enum AuthMarker {
    /// There is none; sessions are looked up elsewhere.
    Absent,
    /// The command line client's start-up probe.
    AuthDoInitProbe,
    /// An editor's change of login.
    AuthSessionChanged,
}

/// The account that a login line names; `none` is no account.
pub open spec fn login_uid(line: Seq<char>, auth: AuthMarker) -> Option<Seq<char>> {
    let marked = match auth {
        AuthMarker::Absent => false,
        AuthMarker::AuthDoInitProbe => text::has(line, CLI_AUTH_MARKER@),
        AuthMarker::AuthSessionChanged => text::has(line, IDE_AUTH_MARKER@),
    };
    match field(line, "uid="@) {
        Some(v) => if marked && text::lower(v) != "none"@ {
            Some(v)
        } else {
            None
        },
        None => None,
    }
}

pub fn auth_uid<'a>(line: &'a [char], auth: AuthMarker) -> (r: Option<&'a [char]>)
    ensures
        text::opt_slice(r) == login_uid(line@, auth),
{
    let marked: bool = match auth {
        AuthMarker::Absent => false,
        AuthMarker::AuthDoInitProbe => text::has_slice(line, CLI_AUTH_MARKER),
        AuthMarker::AuthSessionChanged => text::has_slice(line, IDE_AUTH_MARKER),
    };
    if !marked {
        return None;
    }
    match field_after(line, "uid=") {
        Some(v) => {
            let lower: String = text::to_lower(text::text_of(v).as_str());
            if text::same(lower.as_str(), "none") {
                None
            } else {
                Some(v)
            }
        },
        None => None,
    }
}

/// A digit or a colon.
pub open spec fn offset_char(c: char) -> bool {
    text::digit(c) || c == ':'
}

/// A number of hours or minutes, where it fits into 32 bits.
pub open spec fn i32_of_digits(s: Seq<char>) -> Option<i32> {
    match text::unsigned_value(s) {
        Some(v) => if v <= i32::MAX {
            Some(v as i32)
        } else {
            None
        },
        None => None,
    }
}

fn parse_i32(s: &[char]) -> (r: Option<i32>)
    ensures
        r == i32_of_digits(s@),
{
    match text::parse_digits(s) {
        Some(v) => {
            if v <= 0x7fff_ffff {
                Some(v as i32)
            } else {
                None
            }
        },
        None => None,
    }
}

/// Hours and minutes of an offset: `H:M`, `H`, `HH` or `HHMM`.
pub open spec fn hours_minutes(s: Seq<char>) -> Option<(i32, i32)> {
    let k = text::until(s, |x: char| x == ':');
    let (h, m) = if k < s.len() {
        (i32_of_digits(s.subrange(0, k)), i32_of_digits(s.subrange(k + 1, s.len() as int)))
    } else if s.len() == 1 || s.len() == 2 {
        (i32_of_digits(s), Some(0i32))
    } else if s.len() == 4 {
        (i32_of_digits(s.subrange(0, 2)), i32_of_digits(s.subrange(2, 4)))
    } else {
        (None, None)
    };
    match (h, m) {
        (Some(h), Some(m)) => Some((h, m)),
        _ => None,
    }
}

fn parse_hours_minutes(s: &[char]) -> (r: Option<(i32, i32)>)
    ensures
        r == hours_minutes(s@),
{
    let k: usize = text::until_char(s, ':');
    if k < s.len() {
        match (parse_i32(slice_subrange(s, 0, k)), parse_i32(slice_subrange(s, k + 1, s.len()))) {
            (Some(h), Some(m)) => Some((h, m)),
            _ => None,
        }
    } else if s.len() == 1 || s.len() == 2 {
        match parse_i32(s) {
            Some(h) => Some((h, 0)),
            None => None,
        }
    } else if s.len() == 4 {
        match (parse_i32(slice_subrange(s, 0, 2)), parse_i32(slice_subrange(s, 2, 4))) {
            (Some(h), Some(m)) => Some((h, m)),
            _ => None,
        }
    } else {
        None
    }
}

/// The seconds east of UTC that `UTC+8`, `UTC-5:30` or `UTC+0530` stand for.
/// Seconds are counted in 32 bits; an offset of a day or more is none.
pub open spec fn utc_offset(s: Seq<char>) -> Option<i32> {
    match text::find(s, "UTC"@) {
        None => None,
        Some(i) => {
            let rest = s.subrange(i + "UTC"@.len(), s.len() as int);
            let digits = rest.subrange(1, rest.len() as int);
            if rest.len() == 0 || (rest[0] != '+' && rest[0] != '-') {
                None
            } else {
                match hours_minutes(digits.subrange(0, text::until(digits, |x: char| !offset_char(x)))) {
                    Some((h, m)) => {
                        let east = h.wrapping_mul(3600).wrapping_add(m.wrapping_mul(60));
                        let offset = if rest[0] == '-' {
                            0i32.wrapping_sub(east)
                        } else {
                            east
                        };
                        if -86_400 < offset < 86_400 {
                            Some(offset)
                        } else {
                            None
                        }
                    },
                    None => None,
                }
            }
        },
    }
}

/// The length of the leading digits and colons.
fn offset_len(s: &[char]) -> (r: usize)
    ensures
        r == text::until(s@, |x: char| !offset_char(x)),
        r <= s@.len(),
{
    let mut i: usize = 0;
    while i < s.len() && (text::is_digit(s[i]) || s[i] == ':')
        invariant
            i <= s@.len(),
            forall|j: int| 0 <= j < i ==> offset_char(s@[j]),
        decreases s@.len() - i,
    {
        i += 1;
    }
    proof {
        text::until_unique(s@, |x: char| !offset_char(x), i as int);
    }
    i
}

pub fn parse_utc_offset(s: &[char]) -> (r: Option<i32>)
    ensures
        r == utc_offset(s@),
{
    let mark: Vec<char> = text::chars_of("UTC");
    match text::find_slice(s, mark.as_slice()) {
        None => None,
        Some(i) => {
            let rest: &[char] = slice_subrange(s, i + mark.len(), s.len());
            if rest.len() == 0 || (rest[0] != '+' && rest[0] != '-') {
                return None;
            }
            let digits: &[char] = slice_subrange(rest, 1, rest.len());
            let end: usize = offset_len(digits);
            match parse_hours_minutes(slice_subrange(digits, 0, end)) {
                Some((h, m)) => {
                    let east: i32 = h.wrapping_mul(3600).wrapping_add(m.wrapping_mul(60));
                    let offset: i32 = if rest[0] == '-' {
                        0i32.wrapping_sub(east)
                    } else {
                        east
                    };
                    if -86_400 < offset && offset < 86_400 {
                        Some(offset)
                    } else {
                        None
                    }
                },
                None => None,
            }
        },
    }
}

/// The wall-clock reading that begins a text.
pub open spec fn wall_prefix(s: Seq<char>) -> Option<Wall> {
    match text::exact_front(s, 19) {
        Some(k) => clock::wall_of_text(s.subrange(0, k), RESET_FORMAT@),
        None => None,
    }
}

pub fn parse_datetime_prefix(s: &[char]) -> (r: Option<Wall>)
    ensures
        r == wall_prefix(s@),
{
    match text::exact_bytes(s, 19) {
        Some(t) => clock::parse_wall(text::text_of(t).as_str(), RESET_FORMAT),
        None => None,
    }
}

/// The outcome of looking for a reset time behind one marker: nothing to read
/// there, or a reading that may lie outside the calendar.
pub open spec fn reset_behind(line: Seq<char>, marker: Seq<char>) -> Option<Option<int>> {
    match text::find(line, marker) {
        None => None,
        Some(i) => {
            let rest = line.subrange(i + marker.len(), line.len() as int);
            match (wall_prefix(rest), utc_offset(rest)) {
                (Some(wall), Some(offset)) => Some(clock::zoned(wall, offset as int)),
                _ => None,
            }
        },
    }
}

/// The instant at which the limit of a quota line resets, as the line gives it.
pub open spec fn reset_at(line: Seq<char>) -> Option<int> {
    match reset_behind(line, RESET_ZH@) {
        Some(r) => r,
        None => match reset_behind(line, RESET_EN@) {
            Some(r) => r,
            None => None,
        },
    }
}

fn parse_reset_behind(line: &[char], marker: &str) -> (r: Option<Option<i64>>)
    ensures
        match r {
            Some(o) => reset_behind(line@, marker@) == Some(json::opt_int(o)),
            None => reset_behind(line@, marker@) is None,
        },
{
    let mark: Vec<char> = text::chars_of(marker);
    match text::find_slice(line, mark.as_slice()) {
        None => None,
        Some(i) => {
            let rest: &[char] = slice_subrange(line, i + mark.len(), line.len());
            match (parse_datetime_prefix(rest), parse_utc_offset(rest)) {
                (Some(wall), Some(offset)) => Some(clock::zone_time(wall, offset)),
                _ => None,
            }
        },
    }
}

/// The instant at which the limit of a quota line resets: the reading behind
/// the first marker that has one, in the zone that the line names.
pub fn parse_reset_at(line: &[char]) -> (r: Option<i64>)
    ensures
        json::opt_int(r) == reset_at(line@),
{
    match parse_reset_behind(line, RESET_ZH) {
        Some(r) => r,
        None => match parse_reset_behind(line, RESET_EN) {
            Some(r) => r,
            None => None,
        },
    }
}

/// The time at the head of a line: an instant, or a wall-clock reading that
/// only the local time zone turns into one.
#[derive(Clone, Copy, Debug, PartialEq, Eq, Structural)]
pub enum Stamp {
    Missing,
    Instant(i64),
    Wall(Wall),
}

/// A wall-clock reading as a stamp.
pub open spec fn wall_stamp(o: Option<Wall>) -> Stamp {
    match o {
        Some(w) => Stamp::Wall(w),
        None => Stamp::Missing,
    }
}

/// The time at the head of a line.
pub open spec fn stamp_of(line: Seq<char>, format: LogFormat) -> Stamp {
    let t = text::trim_start(line);
    match format {
        LogFormat::WorkBuddy => match clock::instant_of_rfc3339(
            t.subrange(0, text::until(t, |x: char| text::white(x))),
        ) {
            Some(ms) => Stamp::Instant(ms),
            None => {
                let rest = t.subrange(1, t.len() as int);
                let end = text::until(rest, |x: char| x == ']');
                let stamp = text::trim(rest.subrange(0, end));
                if t.len() == 0 || t[0] != '[' || end >= rest.len() {
                    Stamp::Missing
                } else {
                    wall_stamp(
                        either(
                            clock::wall_of_text(stamp, BUSINESS_TS_FORMAT@),
                            clock::wall_of_text(stamp, BUSINESS_TS_ALT_FORMAT@),
                        ),
                    )
                }
            },
        },
        LogFormat::Ide => match text::exact_front(t, IDE_TS_LEN as int) {
            Some(k) => wall_stamp(clock::wall_of_text(t.subrange(0, k), IDE_TS_FORMAT@)),
            None => Stamp::Missing,
        },
    }
}

fn as_wall(o: Option<Wall>) -> (s: Stamp)
    ensures
        s == wall_stamp(o),
{
    match o {
        Some(w) => Stamp::Wall(w),
        None => Stamp::Missing,
    }
}

/// The time at the head of a line: session logs write an instant, the others a
/// local wall-clock reading.
pub fn line_stamp(line: &[char], format: LogFormat) -> (s: Stamp)
    ensures
        s == stamp_of(line@, format),
{
    let t: &[char] = text::trim_start_slice(line);
    match format {
        LogFormat::WorkBuddy => {
            let head: &[char] = slice_subrange(t, 0, text::until_white(t));
            match clock::parse_rfc3339(text::text_of(head).as_str()) {
                Some(ms) => Stamp::Instant(ms),
                None => {
                    if t.len() == 0 || t[0] != '[' {
                        return Stamp::Missing;
                    }
                    let rest: &[char] = slice_subrange(t, 1, t.len());
                    let end: usize = text::until_char(rest, ']');
                    if end == rest.len() {
                        return Stamp::Missing;
                    }
                    let stamp: String = text::text_of(text::trim_slice(slice_subrange(rest, 0, end)));
                    match clock::parse_wall(stamp.as_str(), BUSINESS_TS_FORMAT) {
                        Some(w) => Stamp::Wall(w),
                        None => as_wall(clock::parse_wall(stamp.as_str(), BUSINESS_TS_ALT_FORMAT)),
                    }
                },
            }
        },
        LogFormat::Ide => match text::exact_bytes(t, IDE_TS_LEN) {
            Some(head) => as_wall(clock::parse_wall(text::text_of(head).as_str(), IDE_TS_FORMAT)),
            None => Stamp::Missing,
        },
    }
}

/// A time that a stamp may mean: none where it is missing, the instant where it
/// gives one; of a reading the time zone decides, within a day.
pub open spec fn may_mean(stamp: Stamp, time: Option<int>) -> bool {
    match stamp {
        Stamp::Missing => time is None,
        Stamp::Instant(ms) => time == Some(ms as int),
        Stamp::Wall(w) => time matches Some(t) ==> clock::may_read(t, w),
    }
}

/// What a stamp means by the local time zone: an instant stands, a reading
/// becomes the earliest instant at which local clocks show it.
pub fn resolve_stamp(stamp: Stamp) -> (r: Option<i64>)
    ensures
        may_mean(stamp, json::opt_int(r)),
{
    match stamp {
        Stamp::Missing => None,
        Stamp::Instant(ms) => Some(ms),
        Stamp::Wall(w) => clock::first_local_time(w),
    }
}

/// The instant at the head of a line, by the local time zone.
pub fn line_timestamp(line: &[char], format: LogFormat) -> (r: Option<i64>)
    ensures
        may_mean(stamp_of(line@, format), json::opt_int(r)),
{
    resolve_stamp(line_stamp(line, format))
}

/// A quota line as it was found.
#[derive(Debug)]
pub struct Hit {
    /// The session or conversation that the line belongs to.
    pub session_id: Option<String>,
    pub model: Option<String>,
    pub reset_at: i64,
    pub occurred_at: i64,
    /// The account that was logged in.
    pub uid: Option<String>,
}

/// What a hit means.
#[verifier::ext_equal]
pub struct HitV {
    pub session_id: Option<Seq<char>>,
    pub model: Option<Seq<char>>,
    pub reset_at: int,
    pub occurred_at: int,
    pub uid: Option<Seq<char>>,
}

impl Hit {
    pub open spec fn view(&self) -> HitV {
        HitV {
            session_id: json::opt_string(self.session_id),
            model: json::opt_string(self.model),
            reset_at: self.reset_at as int,
            occurred_at: self.occurred_at as int,
            uid: json::opt_string(self.uid),
        }
    }
}

/// The hits of a list.
pub open spec fn hits_view(s: Seq<Hit>) -> Seq<HitV> {
    s.map_values(|h: Hit| h@)
}

/// What the scanner knows after some lines.
struct Scanner {
    hits: Vec<Hit>,
    session_models: TextMap,
    request_models: TextMap,
    classifier: Option<(String, Option<i64>)>,
    conversation_models: TextMap,
    auth_error_model: Option<String>,
    uid: Option<String>,
}

/// The scanner's knowledge: the hits so far, the model last seen for each
/// session, request and conversation, the last classified session with its
/// time, the model of the last failed call, and the account last logged in.
#[verifier::ext_equal]
pub struct ScannerV {
    pub hits: Seq<HitV>,
    pub session_models: Map<Seq<char>, Seq<char>>,
    pub request_models: Map<Seq<char>, Seq<char>>,
    pub classifier: Option<(Seq<char>, Option<int>)>,
    pub conversation_models: Map<Seq<char>, Seq<char>>,
    pub auth_error_model: Option<Seq<char>>,
    pub uid: Option<Seq<char>>,
}

impl Scanner {
    closed spec fn view(&self) -> ScannerV {
        ScannerV {
            hits: hits_view(self.hits@),
            session_models: self.session_models@,
            request_models: self.request_models@,
            classifier: match self.classifier {
                Some((s, t)) => Some((s@, json::opt_int(t))),
                None => None,
            },
            conversation_models: self.conversation_models@,
            auth_error_model: json::opt_string(self.auth_error_model),
            uid: json::opt_string(self.uid),
        }
    }
}

/// The knowledge before the first line.
pub open spec fn scan_start() -> ScannerV {
    ScannerV {
        hits: Seq::empty(),
        session_models: Map::empty(),
        request_models: Map::empty(),
        classifier: None,
        conversation_models: Map::empty(),
        auth_error_model: None,
        uid: None,
    }
}

/// The map with one more entry, where both key and value are there.
pub open spec fn note(
    m: Map<Seq<char>, Seq<char>>,
    key: Option<Seq<char>>,
    value: Option<Seq<char>>,
) -> Map<Seq<char>, Seq<char>> {
    match (key, value) {
        (Some(k), Some(v)) => m.insert(k, v),
        _ => m,
    }
}

/// A WorkBuddy line that classifies a refusal as a matter of quota.
pub open spec fn classifies(line: Seq<char>) -> bool {
    text::has(line, CLASSIFIER_MARKER@) && text::has(line, CLASSIFIER_CATEGORY@)
}

/// A quota line.
pub open spec fn quota(line: Seq<char>) -> bool {
    text::has(line, QUOTA_ZH@) || text::has(line, QUOTA_EN@)
}

/// What a line tells about the lines after it. `stamp` is the line's time and
/// `file_session` the session that the file's name gives.
pub open spec fn learn(
    st: ScannerV,
    line: Seq<char>,
    stamp: Option<int>,
    format: LogFormat,
    auth: AuthMarker,
    file_session: Option<Seq<char>>,
) -> ScannerV {
    let st = ScannerV { uid: either(login_uid(line, auth), st.uid), ..st };
    let session = field(line, "sessionId="@);
    match format {
        LogFormat::WorkBuddy => ScannerV {
            session_models: note(
                note(st.session_models, session, model_mark(line, RESOLVED_MODEL_MARKER@)),
                file_session,
                if text::has(line, SDK_SEND_PROMPT_MARKER@) {
                    if_known(quoted(line, "modelId"@))
                } else {
                    None
                },
            ),
            request_models: note(st.request_models, field(line, "requestId="@), model_field(line, "model="@)),
            classifier: if classifies(line) && session is Some {
                Some((session->0, stamp))
            } else {
                st.classifier
            },
            ..st
        },
        LogFormat::Ide => ScannerV {
            conversation_models: note(
                st.conversation_models,
                ide_session_of(line),
                if text::has(line, IDE_MODEL_FIELD@) {
                    ide_model(line)
                } else {
                    None
                },
            ),
            auth_error_model: if text::has(line, IDE_AUTH_ERROR_MARKER@) {
                either(ide_model(line), st.auth_error_model)
            } else {
                st.auth_error_model
            },
            ..st
        },
    }
}

/// The session that a quota line at `at` may borrow from the last classifier
/// line: only from one at most `CLASSIFIER_FALLBACK_MS` before it.
pub open spec fn borrowed_session(classifier: Option<(Seq<char>, Option<int>)>, at: int) -> Option<Seq<char>> {
    match classifier {
        Some((session, Some(t))) => if t <= at <= t + CLASSIFIER_FALLBACK_MS {
            Some(session)
        } else {
            None
        },
        _ => None,
    }
}

/// The value under an optional key.
pub open spec fn look(m: Map<Seq<char>, Seq<char>>, key: Option<Seq<char>>) -> Option<Seq<char>> {
    match key {
        Some(k) => textmap::lookup(m, k),
        None => None,
    }
}

/// Session and model of a WorkBuddy quota line: the session of the pair that
/// ends it, else its own field, else the borrowed one; the model of the request,
/// else the one last seen for the session.
pub open spec fn attribute_workbuddy(
    line: Seq<char>,
    requests: Map<Seq<char>, Seq<char>>,
    sessions: Map<Seq<char>, Seq<char>>,
    borrowed: Option<Seq<char>>,
) -> (Option<Seq<char>>, Option<Seq<char>>) {
    let pair = pair_from(line, 0, None);
    let request = match pair {
        Some(p) => Some(p.0),
        None => None,
    };
    let own = match pair {
        Some(p) => Some(p.1),
        None => None,
    };
    let session = either(own, either(field(line, "sessionId="@), borrowed));
    (session, either(look(requests, request), look(sessions, session)))
}

/// Conversation and model of an editor's quota line: the model last seen for
/// the conversation, else the line's own, else that of the last failed call.
pub open spec fn attribute_ide(
    line: Seq<char>,
    conversations: Map<Seq<char>, Seq<char>>,
    failed: Option<Seq<char>>,
) -> (Option<Seq<char>>, Option<Seq<char>>) {
    let conversation = ide_conversation_of(line);
    (
        conversation,
        either(look(conversations, conversation), either(ide_model(line), either(ide_quoted_model(line), failed))),
    )
}

/// The knowledge after a quota line has been looked at: a hit is added where
/// the line gives a reset time, has a time itself and, in WorkBuddy's own logs,
/// belongs to a session.
pub open spec fn collect(
    st: ScannerV,
    line: Seq<char>,
    stamp: Option<int>,
    format: LogFormat,
    auth: AuthMarker,
) -> ScannerV {
    if !quota(line) {
        st
    } else {
        let st = ScannerV {
            uid: if auth == AuthMarker::Absent {
                st.uid
            } else {
                either(st.uid, quoted(line, "x-user-id"@))
            },
            ..st
        };
        match (reset_at(line), stamp) {
            (Some(reset), Some(at)) => {
                let (session, model) = match format {
                    LogFormat::WorkBuddy => attribute_workbuddy(
                        line,
                        st.request_models,
                        st.session_models,
                        borrowed_session(st.classifier, at),
                    ),
                    LogFormat::Ide => attribute_ide(line, st.conversation_models, st.auth_error_model),
                };
                if format == LogFormat::WorkBuddy && auth == AuthMarker::Absent && session is None {
                    st
                } else {
                    ScannerV {
                        hits: st.hits.push(
                            HitV {
                                session_id: session,
                                model,
                                reset_at: reset,
                                occurred_at: at,
                                uid: st.uid,
                            },
                        ),
                        ..st
                    }
                }
            },
            _ => st,
        }
    }
}

/// One line of the scan: a line that merely carries a tool's output is passed over.
pub open spec fn scan_line(
    st: ScannerV,
    line: Seq<char>,
    stamp: Option<int>,
    format: LogFormat,
    auth: AuthMarker,
    file_session: Option<Seq<char>>,
) -> ScannerV {
    if transport(line) {
        st
    } else {
        collect(learn(st, line, stamp, format, auth, file_session), line, stamp, format, auth)
    }
}

/// The knowledge after the lines from `i` on.
pub open spec fn scan_from(
    st: ScannerV,
    lines: Seq<Seq<char>>,
    stamps: Seq<Option<int>>,
    i: int,
    format: LogFormat,
    auth: AuthMarker,
    file_session: Option<Seq<char>>,
) -> ScannerV
    decreases lines.len() - i,
{
    if i < 0 || i >= lines.len() {
        st
    } else {
        scan_from(
            scan_line(st, lines[i], stamps[i], format, auth, file_session),
            lines,
            stamps,
            i + 1,
            format,
            auth,
            file_session,
        )
    }
}

/// The times of the lines as optional integers.
pub open spec fn stamps_view(s: Seq<Option<i64>>) -> Seq<Option<int>> {
    s.map_values(|o: Option<i64>| json::opt_int(o))
}

/// The hits of a text whose lines have these times.
pub open spec fn scan_hits(
    text: Seq<char>,
    stamps: Seq<Option<int>>,
    format: LogFormat,
    auth: AuthMarker,
    file_session: Option<Seq<char>>,
) -> Seq<HitV> {
    scan_from(scan_start(), text::lines(text), stamps, 0, format, auth, file_session).hits
}

fn owned(o: Option<&[char]>) -> (r: Option<String>)
    ensures
        json::opt_string(r) == text::opt_slice(o),
{
    match o {
        Some(s) => Some(text::text_of(s)),
        None => None,
    }
}

fn note_in(m: &mut TextMap, key: Option<String>, value: Option<&[char]>)
    ensures
        final(m)@ == note(old(m)@, json::opt_string(key), text::opt_slice(value)),
{
    match (key, value) {
        (Some(k), Some(v)) => {
            m.insert(k, text::text_of(v));
        },
        _ => {},
    }
}

fn look_up(m: &TextMap, key: &Option<String>) -> (r: Option<String>)
    ensures
        json::opt_string(r) == look(m@, json::opt_string(*key)),
{
    match key {
        Some(k) => match m.get(k.as_str()) {
            Some(v) => Some(v.to_owned()),
            None => None,
        },
        None => None,
    }
}

/// Session and model of a WorkBuddy quota line.
fn workbuddy_attribution(
    line: &[char],
    request_models: &TextMap,
    session_models: &TextMap,
    borrowed: Option<String>,
) -> (r: (Option<String>, Option<String>))
    ensures
        (json::opt_string(r.0), json::opt_string(r.1)) == attribute_workbuddy(
            line@,
            request_models@,
            session_models@,
            json::opt_string(borrowed),
        ),
{
    let (request, own): (Option<String>, Option<String>) = match request_pair(line) {
        Some((a, b)) => (Some(text::text_of(a)), Some(text::text_of(b))),
        None => (None, None),
    };
    let session: Option<String> = match own {
        Some(v) => Some(v),
        None => match field_after(line, "sessionId=") {
            Some(v) => Some(text::text_of(v)),
            None => borrowed,
        },
    };
    let model: Option<String> = match look_up(request_models, &request) {
        Some(m) => Some(m),
        None => look_up(session_models, &session),
    };
    (session, model)
}

/// Conversation and model of an editor's quota line.
fn ide_attribution(line: &[char], conversation_models: &TextMap, failed: &Option<String>) -> (r: (
    Option<String>,
    Option<String>,
))
    ensures
        (json::opt_string(r.0), json::opt_string(r.1)) == attribute_ide(
            line@,
            conversation_models@,
            json::opt_string(*failed),
        ),
{
    let conversation: Option<String> = owned(ide_conversation_id(line));
    let model: Option<String> = match look_up(conversation_models, &conversation) {
        Some(m) => Some(m),
        None => match ide_model_id(line) {
            Some(m) => Some(text::text_of(m)),
            None => match ide_json_model(line) {
                Some(m) => Some(text::text_of(m)),
                None => failed.clone(),
            },
        },
    };
    (conversation, model)
}

impl Scanner {
    fn new() -> (s: Scanner)
        ensures
            s@ == scan_start(),
    {
        let s: Scanner = Scanner {
            hits: Vec::new(),
            session_models: TextMap::new(),
            request_models: TextMap::new(),
            classifier: None,
            conversation_models: TextMap::new(),
            auth_error_model: None,
            uid: None,
        };
        assert(s@.hits =~= Seq::empty());
        s
    }

    fn learn(
        &mut self,
        line: &[char],
        stamp: Option<i64>,
        format: LogFormat,
        auth: AuthMarker,
        file_session: Option<&str>,
    )
        ensures
            final(self)@ == learn(
                old(self)@,
                line@,
                json::opt_int(stamp),
                format,
                auth,
                json::opt_text(file_session),
            ),
    {
        match auth_uid(line, auth) {
            Some(v) => {
                self.uid = Some(text::text_of(v));
            },
            None => {},
        }
        match format {
            LogFormat::WorkBuddy => {
                note_in(
                    &mut self.session_models,
                    owned(field_after(line, "sessionId=")),
                    model_after(line, RESOLVED_MODEL_MARKER),
                );
                note_in(
                    &mut self.request_models,
                    owned(field_after(line, "requestId=")),
                    field_model(line, "model="),
                );
                match file_session {
                    Some(session) => {
                        if text::has_slice(line, SDK_SEND_PROMPT_MARKER) {
                            note_in(
                                &mut self.session_models,
                                Some(session.to_owned()),
                                keep_known(json_field(line, "modelId")),
                            );
                        }
                    },
                    None => {},
                }
                if text::has_slice(line, CLASSIFIER_MARKER) && text::has_slice(line, CLASSIFIER_CATEGORY) {
                    match field_after(line, "sessionId=") {
                        Some(session) => {
                            self.classifier = Some((text::text_of(session), stamp));
                        },
                        None => {},
                    }
                }
            },
            LogFormat::Ide => {
                if text::has_slice(line, IDE_MODEL_FIELD) {
                    note_in(&mut self.conversation_models, owned(ide_session_id(line)), ide_model_id(line));
                }
                if text::has_slice(line, IDE_AUTH_ERROR_MARKER) {
                    match ide_model_id(line) {
                        Some(m) => {
                            self.auth_error_model = Some(text::text_of(m));
                        },
                        None => {},
                    }
                }
            },
        }
        assert(self@ =~= learn(old(self)@, line@, json::opt_int(stamp), format, auth, json::opt_text(file_session)));
    }

    fn collect(&mut self, line: &[char], stamp: Option<i64>, format: LogFormat, auth: AuthMarker)
        ensures
            final(self)@ == collect(old(self)@, line@, json::opt_int(stamp), format, auth),
    {
        if !text::has_slice(line, QUOTA_ZH) && !text::has_slice(line, QUOTA_EN) {
            return;
        }
        if auth != AuthMarker::Absent && self.uid.is_none() {
            self.uid = owned(json_field(line, "x-user-id"));
        }
        match (parse_reset_at(line), stamp) {
            (Some(reset), Some(at)) => {
                let (session, model): (Option<String>, Option<String>) = match format {
                    LogFormat::WorkBuddy => {
                        let borrowed: Option<String> = match &self.classifier {
                            Some((session, Some(t))) => {
                                if at >= *t && at as i128 - *t as i128 <= CLASSIFIER_FALLBACK_MS as i128 {
                                    Some(session.clone())
                                } else {
                                    None
                                }
                            },
                            _ => None,
                        };
                        workbuddy_attribution(line, &self.request_models, &self.session_models, borrowed)
                    },
                    LogFormat::Ide => ide_attribution(line, &self.conversation_models, &self.auth_error_model),
                };
                if format == LogFormat::WorkBuddy && auth == AuthMarker::Absent && session.is_none() {
                    return;
                }
                let ghost before = self.hits@;
                self.hits.push(
                    Hit { session_id: session, model, reset_at: reset, occurred_at: at, uid: self.uid.clone() },
                );
                assert(hits_view(self.hits@) =~= hits_view(before).push(self.hits@[before.len() as int]@));
            },
            _ => {},
        }
        assert(self@ =~= collect(old(self)@, line@, json::opt_int(stamp), format, auth));
    }
}

/// Scans a log whose lines have the given times.
///
/// The scan goes forward, so that the model and the account of a hit are the
/// last ones seen before it.
pub fn scan_stamped(
    content: &str,
    stamps: &[Option<i64>],
    format: LogFormat,
    auth: AuthMarker,
    file_session: Option<&str>,
) -> (hits: Vec<Hit>)
    requires
        stamps@.len() == text::lines(content@).len(),
    ensures
        hits_view(hits@) == scan_hits(
            content@,
            stamps_view(stamps@),
            format,
            auth,
            json::opt_text(file_session),
        ),
{
    let chars: Vec<char> = text::chars_of(content);
    let ranges: Vec<(usize, usize)> = text::line_ranges(chars.as_slice());
    let mut scanner: Scanner = Scanner::new();
    let ghost all = text::lines(content@);
    let ghost times = stamps_view(stamps@);
    let ghost session = json::opt_text(file_session);
    let mut i: usize = 0;
    while i < ranges.len()
        invariant
            i <= ranges@.len(),
            chars@ == content@,
            all == text::lines(content@),
            times == stamps_view(stamps@),
            session == json::opt_text(file_session),
            ranges@.len() == all.len(),
            stamps@.len() == all.len(),
            text::ranges_of_lines(chars@, ranges@),
            scan_from(scan_start(), all, times, 0, format, auth, session) == scan_from(
                scanner@,
                all,
                times,
                i as int,
                format,
                auth,
                session,
            ),
        decreases ranges@.len() - i,
    {
        let (start, end): (usize, usize) = ranges[i];
        let line: &[char] = slice_subrange(chars.as_slice(), start, end);
        if !is_transport_line(line) {
            scanner.learn(line, stamps[i], format, auth, file_session);
            scanner.collect(line, stamps[i], format, auth);
        }
        i += 1;
    }
    scanner.hits
}

/// Times that the lines of a text may have.
pub open spec fn stamps_agree(content: Seq<char>, format: LogFormat, stamps: Seq<Option<int>>) -> bool {
    let all = text::lines(content);
    &&& stamps.len() == all.len()
    &&& forall|i: int|
        0 <= i < all.len() ==> may_mean(stamp_of(#[trigger] all[i], format), stamps[i])
}

/// The times of a text's lines, by the local time zone.
pub fn line_times(content: &str, format: LogFormat) -> (stamps: Vec<Option<i64>>)
    ensures
        stamps_agree(content@, format, stamps_view(stamps@)),
{
    let chars: Vec<char> = text::chars_of(content);
    let ranges: Vec<(usize, usize)> = text::line_ranges(chars.as_slice());
    let mut stamps: Vec<Option<i64>> = Vec::new();
    let ghost all = text::lines(content@);
    let mut i: usize = 0;
    while i < ranges.len()
        invariant
            i <= ranges@.len(),
            chars@ == content@,
            all == text::lines(content@),
            ranges@.len() == all.len(),
            stamps@.len() == i,
            text::ranges_of_lines(chars@, ranges@),
            forall|j: int|
                0 <= j < i ==> may_mean(stamp_of(#[trigger] all[j], format), json::opt_int(stamps@[j])),
        decreases ranges@.len() - i,
    {
        let (start, end): (usize, usize) = ranges[i];
        stamps.push(line_timestamp(slice_subrange(chars.as_slice(), start, end), format));
        i += 1;
    }
    stamps
}

/// Scans a log by the local time zone. `file_session` is the session that the
/// file's name gives.
pub fn scan_text_scoped(
    content: &str,
    format: LogFormat,
    auth: AuthMarker,
    file_session: Option<&str>,
) -> (hits: Vec<Hit>)
    ensures
        exists|stamps: Seq<Option<int>>| #[trigger]
            stamps_agree(content@, format, stamps) && hits_view(hits@) == scan_hits(
                content@,
                stamps,
                format,
                auth,
                json::opt_text(file_session),
            ),
{
    let stamps: Vec<Option<i64>> = line_times(content, format);
    let hits: Vec<Hit> = scan_stamped(content, stamps.as_slice(), format, auth, file_session);
    assert(stamps_agree(content@, format, stamps_view(stamps@)));
    hits
}

/// Scans a log whose file name gives no session.
pub fn scan_text(content: &str, format: LogFormat, auth: AuthMarker) -> (hits: Vec<Hit>)
    ensures
        exists|stamps: Seq<Option<int>>| #[trigger]
            stamps_agree(content@, format, stamps) && hits_view(hits@) == scan_hits(
                content@,
                stamps,
                format,
                auth,
                None,
            ),
{
    scan_text_scoped(content, format, auth, None)
}

/// The bytes `n` stand in `h` at position `i`.
pub open spec fn bytes_at(h: Seq<u8>, n: Seq<u8>, i: int) -> bool {
    0 <= i && i + n.len() <= h.len() && h.subrange(i, i + n.len()) == n
}

/// `b` stands in `n` nowhere among the `skip - 1` places before the last.
pub open spec fn skip_safe(n: Seq<u8>, b: u8, skip: int) -> bool {
    1 <= skip <= n.len() && forall|j: int| n.len() - skip <= j < n.len() - 1 ==> #[trigger] n[j] != b
}

fn same_bytes_at(h: &[u8], n: &[u8], i: usize) -> (b: bool)
    requires
        i + n@.len() <= h@.len() <= usize::MAX,
    ensures
        b == bytes_at(h@, n@, i as int),
{
    let mut k: usize = 0;
    while k < n.len()
        invariant
            k <= n@.len(),
            i + n@.len() <= h@.len() <= usize::MAX,
            forall|j: int| 0 <= j < k ==> h@[i + j] == n@[j],
        decreases n@.len() - k,
    {
        if h[i + k] != n[k] {
            assert(h@.subrange(i as int, i + n@.len())[k as int] != n@[k as int]);
            return false;
        }
        k += 1;
    }
    assert(h@.subrange(i as int, i + n@.len()) =~= n@);
    true
}

/// Whether the bytes `needle` stand in `haystack`; an empty needle never does.
///
/// Boyer-Moore-Horspool: where the window's last byte is `b`, the window moves
/// on until a `b` of the needle comes to stand there.
pub fn contains(haystack: &[u8], needle: &[u8]) -> (b: bool)
    ensures
        b == (needle@.len() > 0 && exists|i: int| bytes_at(haystack@, needle@, i)),
{
    let m: usize = needle.len();
    if m == 0 || haystack.len() < m {
        return false;
    }
    let mut skip: Vec<usize> = vec![m; 256];
    let mut k: usize = 0;
    while k < m - 1
        invariant
            k <= m - 1,
            0 < m == needle@.len(),
            skip@.len() == 256,
            forall|c: u8| 1 <= #[trigger] skip@[c as int] <= m,
            forall|c: u8, j: int| #![trigger skip@[c as int], needle@[j]] m - skip@[c as int] <= j < k ==> needle@[j] != c,
        decreases m - k,
    {
        let byte: usize = needle[k] as usize;
        skip.set(byte, m - 1 - k);
        k += 1;
    }
    assert forall|c: u8| skip_safe(needle@, c, #[trigger] skip@[c as int] as int) by {}
    let mut offset: usize = 0;
    while offset <= haystack.len() - m
        invariant
            0 < m == needle@.len() <= haystack@.len(),
            skip@.len() == 256,
            forall|c: u8| skip_safe(needle@, c, #[trigger] skip@[c as int] as int),
            forall|i: int| 0 <= i < offset ==> !bytes_at(haystack@, needle@, i),
        decreases haystack@.len() - offset,
    {
        if same_bytes_at(haystack, needle, offset) {
            return true;
        }
        let last: u8 = haystack[offset + (m - 1)];
        let step: usize = skip[last as usize];
        assert(skip_safe(needle@, last, skip@[last as int] as int));
        assert forall|i: int| offset <= i < offset + step implies !bytes_at(haystack@, needle@, i) by {
            if i > offset && bytes_at(haystack@, needle@, i) {
                let j = m - 1 - (i - offset);
                assert(haystack@.subrange(i, i + m)[j] == needle@[j]);
                assert(needle@[j] != last);
            }
        }
        if step > haystack.len() - offset {
            return false;
        }
        offset = offset + step;
    }
    false
}

/// The number of hyphens in a text.
pub open spec fn hyphens(s: Seq<char>) -> int
    decreases s.len(),
{
    if s.len() == 0 {
        0
    } else {
        hyphens(s.subrange(0, s.len() - 1)) + if s[s.len() - 1] == '-' {
            1int
        } else {
            0int
        }
    }
}

fn count_hyphens(s: &[char]) -> (n: usize)
    ensures
        n == hyphens(s@),
{
    let mut n: usize = 0;
    let mut i: usize = 0;
    while i < s.len()
        invariant
            i <= s@.len(),
            n <= i,
            n == hyphens(s@.subrange(0, i as int)),
        decreases s@.len() - i,
    {
        assert(s@.subrange(0, i + 1).subrange(0, i as int) =~= s@.subrange(0, i as int));
        if s[i] == '-' {
            n += 1;
        }
        i += 1;
    }
    assert(s@.subrange(0, s@.len() as int) =~= s@);
    n
}

/// The session that the name of a session log gives: the log lies in
/// `sdk/conversations` and its name is a UUID.
pub open spec fn file_session(path: Seq<char>) -> Option<Seq<char>> {
    let parts = paths::parts(path, false);
    let name = paths::stem(parts[0]);
    if parts.len() >= 3 && parts[1] == "conversations"@ && parts[2] == "sdk"@ && hex_id(name, 36) && hyphens(name) == 4 {
        Some(name)
    } else {
        None
    }
}

/// The session that the name of a session log gives. The directories count:
/// elsewhere a UUID may name anything.
pub fn session_from_file_name(path: &str) -> (r: Option<String>)
    ensures
        json::opt_string(r) == file_session(path@),
{
    let chars: Vec<char> = text::chars_of(path);
    let parts: Vec<String> = paths::parts_of(chars.as_slice(), false);
    let ghost names = variant::strings(parts@);
    if parts.len() < 3 {
        assert(names.len() == parts@.len());
        return None;
    }
    assert(names[0] == parts@[0]@ && names[1] == parts@[1]@ && names[2] == parts@[2]@);
    let last: Vec<char> = text::chars_of(parts[0].as_str());
    let name: &[char] = paths::stem_of(last.as_slice());
    if same(parts[1].as_str(), "conversations") && same(parts[2].as_str(), "sdk") && is_hex_id(name, 36)
        && count_hyphens(name) == 4 {
        Some(text::text_of(name))
    } else {
        None
    }
}

/// The text that `String::from_utf8_lossy` makes of bytes.
pub uninterp spec fn lossy_text_of(bytes: Seq<u8>) -> Seq<char>;

/// `String::from_utf8_lossy`: the text of the bytes, what is not UTF-8 replaced. Of
/// bytes that are UTF-8 it is the text that they encode; how others are replaced is
/// left unsaid.
#[verifier::external_body]
pub(crate) fn lossy_text(bytes: &[u8]) -> (s: String)
    ensures
        s@ == lossy_text_of(bytes@),
        vstd::utf8::valid_utf8(bytes@) ==> s@ == vstd::utf8::decode_utf8(bytes@),
{
    String::from_utf8_lossy(bytes).into_owned()
}

/// The bytes of a quota mark stand in a file.
pub open spec fn has_quota_bytes(bytes: Seq<u8>) -> bool {
    ||| exists|i: int| bytes_at(bytes, vstd::utf8::encode_utf8(QUOTA_ZH@), i)
    ||| exists|i: int| bytes_at(bytes, vstd::utf8::encode_utf8(QUOTA_EN@), i)
}

/// Whether a file is worth decoding: the bytes of a quota mark stand in it.
pub fn worth_scanning(bytes: &[u8]) -> (b: bool)
    ensures
        b == has_quota_bytes(bytes@),
{
    proof {
        reveal_strlit("超出频率限制");
        reveal_strlit("usage exceeds frequency limit");
        mark_has_bytes(QUOTA_ZH@);
        mark_has_bytes(QUOTA_EN@);
    }
    contains(bytes, QUOTA_ZH.as_bytes()) || contains(bytes, QUOTA_EN.as_bytes())
}

/// A text that is not empty has bytes.
proof fn mark_has_bytes(s: Seq<char>)
    requires
        s.len() > 0,
    ensures
        vstd::utf8::encode_utf8(s).len() > 0,
{
    vstd::utf8::encode_utf8_first_scalar(s);
}

/// Scans a log file by the local time zone: a file without the bytes of a quota
/// mark is not decoded at all.
pub fn scan_file(bytes: &[u8], path: &str, format: LogFormat, auth: AuthMarker) -> (hits: Vec<Hit>)
    ensures
        !has_quota_bytes(bytes@) ==> hits@.len() == 0,
        has_quota_bytes(bytes@) ==> exists|stamps: Seq<Option<int>>| #[trigger]
            stamps_agree(lossy_text_of(bytes@), format, stamps) && hits_view(hits@) == scan_hits(
                lossy_text_of(bytes@),
                stamps,
                format,
                auth,
                file_session(path@),
            ),
        has_quota_bytes(bytes@) && vstd::utf8::valid_utf8(bytes@) ==> lossy_text_of(bytes@) == vstd::utf8::decode_utf8(
            bytes@,
        ),
{
    if !worth_scanning(bytes) {
        return Vec::new();
    }
    let content: String = lossy_text(bytes);
    match session_from_file_name(path) {
        Some(session) => scan_text_scoped(content.as_str(), format, auth, Some(session.as_str())),
        None => scan_text(content.as_str(), format, auth),
    }
}

/// Whether a directory's name is a date.
pub fn is_dated(name: &str) -> (b: bool)
    ensures
        b == clock::day_of_text(name@).is_some(),
{
    clock::parse_day(name).is_some()
}

/// Scanning to a line and on from there is scanning through.
proof fn scan_splits(
    st: ScannerV,
    lines: Seq<Seq<char>>,
    stamps: Seq<Option<int>>,
    more: Seq<Seq<char>>,
    more_stamps: Seq<Option<int>>,
    i: int,
    shift: int,
    format: LogFormat,
    auth: AuthMarker,
    session: Option<Seq<char>>,
)
    requires
        0 <= i <= lines.len(),
        0 <= i + shift,
        more.len() == lines.len() + shift,
        forall|j: int| i <= j < lines.len() ==> #[trigger] lines[j] == more[j + shift] && stamps[j] == more_stamps[j
            + shift],
    ensures
        scan_from(st, lines, stamps, i, format, auth, session) == scan_from(
            st,
            more,
            more_stamps,
            i + shift,
            format,
            auth,
            session,
        ),
    decreases lines.len() - i,
{
    if i < lines.len() {
        assert(lines[i] == more[i + shift]);
        scan_splits(
            scan_line(st, lines[i], stamps[i], format, auth, session),
            lines,
            stamps,
            more,
            more_stamps,
            i + 1,
            shift,
            format,
            auth,
            session,
        );
    }
}

/// A line that merely carries a tool's output might as well not be there: the
/// scan of a log without it ends with the same knowledge.
pub proof fn transport_lines_do_not_count(
    st: ScannerV,
    lines: Seq<Seq<char>>,
    stamps: Seq<Option<int>>,
    i: int,
    k: int,
    format: LogFormat,
    auth: AuthMarker,
    session: Option<Seq<char>>,
)
    requires
        0 <= i <= k < lines.len(),
        stamps.len() == lines.len(),
        transport(lines[k]),
    ensures
        scan_from(st, lines, stamps, i, format, auth, session) == scan_from(
            st,
            lines.remove(k),
            stamps.remove(k),
            i,
            format,
            auth,
            session,
        ),
    decreases k - i,
{
    let fewer = lines.remove(k);
    let fewer_stamps = stamps.remove(k);
    if i == k {
        scan_splits(st, lines, stamps, fewer, fewer_stamps, i + 1, -1, format, auth, session);
        assert(scan_line(st, lines[i], stamps[i], format, auth, session) == st);
    } else {
        assert(fewer[i] == lines[i]);
        assert(fewer_stamps[i] == stamps[i]);
        transport_lines_do_not_count(
            scan_line(st, lines[i], stamps[i], format, auth, session),
            lines,
            stamps,
            i + 1,
            k,
            format,
            auth,
            session,
        );
    }
}

/// A hit was made of that line.
pub open spec fn made_of(h: HitV, line: Seq<char>, stamp: Option<int>) -> bool {
    &&& quota(line)
    &&& !transport(line)
    &&& reset_at(line) == Some(h.reset_at)
    &&& stamp == Some(h.occurred_at)
}

/// Some line of the log made the hit.
pub open spec fn has_source(h: HitV, lines: Seq<Seq<char>>, stamps: Seq<Option<int>>) -> bool {
    exists|k: int| 0 <= k < lines.len() && made_of(h, #[trigger] lines[k], stamps[k])
}

proof fn sources_kept(
    st: ScannerV,
    lines: Seq<Seq<char>>,
    stamps: Seq<Option<int>>,
    i: int,
    format: LogFormat,
    auth: AuthMarker,
    session: Option<Seq<char>>,
)
    requires
        0 <= i <= lines.len(),
        forall|j: int| 0 <= j < st.hits.len() ==> has_source(#[trigger] st.hits[j], lines, stamps),
    ensures
        ({
            let end = scan_from(st, lines, stamps, i, format, auth, session);
            forall|j: int| 0 <= j < end.hits.len() ==> has_source(#[trigger] end.hits[j], lines, stamps)
        }),
    decreases lines.len() - i,
{
    if i < lines.len() {
        let next = scan_line(st, lines[i], stamps[i], format, auth, session);
        assert forall|j: int| 0 <= j < next.hits.len() implies has_source(#[trigger] next.hits[j], lines, stamps) by {
            if j < st.hits.len() {
                assert(next.hits[j] == st.hits[j]);
            } else {
                assert(made_of(next.hits[j], lines[i], stamps[i]));
            }
        }
        sources_kept(next, lines, stamps, i + 1, format, auth, session);
    }
}

/// Every hit comes from a quota line of the log that is not a tool's output: it
/// has that line's reset time and that line's time.
pub proof fn hits_come_from_quota_lines(
    content: Seq<char>,
    stamps: Seq<Option<int>>,
    format: LogFormat,
    auth: AuthMarker,
    session: Option<Seq<char>>,
)
    ensures
        ({
            let hits = scan_hits(content, stamps, format, auth, session);
            forall|j: int| 0 <= j < hits.len() ==> has_source(#[trigger] hits[j], text::lines(content), stamps)
        }),
{
    sources_kept(scan_start(), text::lines(content), stamps, 0, format, auth, session);
}

/// The hits belong to sessions.
pub open spec fn all_have_sessions(hits: Seq<HitV>) -> bool {
    forall|j: int| 0 <= j < hits.len() ==> (#[trigger] hits[j]).session_id is Some
}

proof fn sessions_kept(
    st: ScannerV,
    lines: Seq<Seq<char>>,
    stamps: Seq<Option<int>>,
    i: int,
    session: Option<Seq<char>>,
)
    requires
        all_have_sessions(st.hits),
    ensures
        all_have_sessions(
            scan_from(st, lines, stamps, i, LogFormat::WorkBuddy, AuthMarker::Absent, session).hits,
        ),
    decreases lines.len() - i,
{
    if 0 <= i < lines.len() {
        let next = scan_line(st, lines[i], stamps[i], LogFormat::WorkBuddy, AuthMarker::Absent, session);
        sessions_kept(next, lines, stamps, i + 1, session);
    }
}

/// In WorkBuddy's own logs every hit belongs to a session: a quota text without
/// one may have been quoted from anywhere.
pub proof fn workbuddy_hits_have_sessions(
    content: Seq<char>,
    stamps: Seq<Option<int>>,
    session: Option<Seq<char>>,
)
    ensures
        all_have_sessions(scan_hits(content, stamps, LogFormat::WorkBuddy, AuthMarker::Absent, session)),
{
    sessions_kept(scan_start(), text::lines(content), stamps, 0, session);
}

/// An editor's scan knows no model but usable ones.
pub open spec fn models_known(st: ScannerV) -> bool {
    &&& forall|k: Seq<char>| #[trigger]
        st.conversation_models.contains_key(k) ==> known(st.conversation_models[k])
    &&& st.auth_error_model is Some ==> known(st.auth_error_model->0)
    &&& forall|j: int|
        0 <= j < st.hits.len() && (#[trigger] st.hits[j]).model is Some ==> known(st.hits[j].model->0)
}

proof fn models_kept(
    st: ScannerV,
    lines: Seq<Seq<char>>,
    stamps: Seq<Option<int>>,
    i: int,
    auth: AuthMarker,
    session: Option<Seq<char>>,
)
    requires
        models_known(st),
    ensures
        models_known(scan_from(st, lines, stamps, i, LogFormat::Ide, auth, session)),
    decreases lines.len() - i,
{
    if 0 <= i < lines.len() {
        let next = scan_line(st, lines[i], stamps[i], LogFormat::Ide, auth, session);
        models_kept(next, lines, stamps, i + 1, auth, session);
    }
}

/// In an editor's log no hit is given a model that is blank, `auto`,
/// `undefined` or `null`.
pub proof fn ide_models_are_known(
    content: Seq<char>,
    stamps: Seq<Option<int>>,
    auth: AuthMarker,
    session: Option<Seq<char>>,
)
    ensures
        ({
            let hits = scan_hits(content, stamps, LogFormat::Ide, auth, session);
            forall|j: int| 0 <= j < hits.len() && (#[trigger] hits[j]).model is Some ==> known(hits[j].model->0)
        }),
{
    models_kept(scan_start(), text::lines(content), stamps, 0, auth, session);
}

/// Reading on where a log has grown comes to the same as reading all of it.
pub proof fn reading_goes_on(
    st: ScannerV,
    lines: Seq<Seq<char>>,
    stamps: Seq<Option<int>>,
    more: Seq<Seq<char>>,
    later: Seq<Option<int>>,
    i: int,
    format: LogFormat,
    auth: AuthMarker,
    session: Option<Seq<char>>,
)
    requires
        0 <= i <= lines.len(),
        stamps.len() == lines.len(),
        later.len() == more.len(),
    ensures
        scan_from(st, lines + more, stamps + later, i, format, auth, session) == scan_from(
            scan_from(st, lines, stamps, i, format, auth, session),
            more,
            later,
            0,
            format,
            auth,
            session,
        ),
    decreases lines.len() - i,
{
    if i < lines.len() {
        assert((lines + more)[i] == lines[i] && (stamps + later)[i] == stamps[i]);
        reading_goes_on(
            scan_line(st, lines[i], stamps[i], format, auth, session),
            lines,
            stamps,
            more,
            later,
            i + 1,
            format,
            auth,
            session,
        );
    } else {
        scan_splits(
            st,
            more,
            later,
            lines + more,
            stamps + later,
            0,
            lines.len() as int,
            format,
            auth,
            session,
        );
    }
}

proof fn hits_are_added(
    st: ScannerV,
    lines: Seq<Seq<char>>,
    stamps: Seq<Option<int>>,
    i: int,
    format: LogFormat,
    auth: AuthMarker,
    session: Option<Seq<char>>,
)
    ensures
        st.hits.is_prefix_of(scan_from(st, lines, stamps, i, format, auth, session).hits),
    decreases lines.len() - i,
{
    if 0 <= i < lines.len() {
        let next = scan_line(st, lines[i], stamps[i], format, auth, session);
        assert(st.hits.is_prefix_of(next.hits));
        hits_are_added(next, lines, stamps, i + 1, format, auth, session);
    }
}

/// What is logged later changes no hit: the hits of a log are the first of those
/// of the log with more lines behind it.
pub proof fn later_lines_change_no_hit(
    st: ScannerV,
    lines: Seq<Seq<char>>,
    stamps: Seq<Option<int>>,
    more: Seq<Seq<char>>,
    later: Seq<Option<int>>,
    format: LogFormat,
    auth: AuthMarker,
    session: Option<Seq<char>>,
)
    requires
        stamps.len() == lines.len(),
        later.len() == more.len(),
    ensures
        scan_from(st, lines, stamps, 0, format, auth, session).hits.is_prefix_of(
            scan_from(st, lines + more, stamps + later, 0, format, auth, session).hits,
        ),
{
    reading_goes_on(st, lines, stamps, more, later, 0, format, auth, session);
    hits_are_added(
        scan_from(st, lines, stamps, 0, format, auth, session),
        more,
        later,
        0,
        format,
        auth,
        session,
    );
}

} // verus!
