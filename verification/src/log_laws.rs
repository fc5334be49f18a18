//! What reading log lines promises.
use vstd::prelude::*;
use crate::clock;
use crate::clock::Wall;
use crate::log_scan;
use crate::log_scan::{AuthMarker, LogFormat, ScannerV, Stamp};
use crate::paths;
use crate::text;

verus! {

/// The place at which `key` stands in a line, no earlier place in it having it.
spec fn first_at(line: Seq<char>, key: Seq<char>, at: int) -> bool {
    text::occurs(line, key, at) && forall|j: int| 0 <= j < at ==> !text::occurs(line, key, j)
}

proof fn first_is_found(line: Seq<char>, key: Seq<char>, at: int)
    requires
        first_at(line, key, at),
    ensures
        text::find_from(line, key, 0) == Some(at),
        text::find(line, key) == Some(at),
{
    text::find_is_first(line, key, 0);
}

proof fn occurs_behind(before: Seq<char>, key: Seq<char>, rest: Seq<char>)
    ensures
        text::occurs(before + key + rest, key, before.len() as int),
        (before + key + rest).subrange((before.len() + key.len()) as int, (before + key + rest).len() as int) == rest,
{
    let line = before + key + rest;
    assert(line.subrange(before.len() as int, (before.len() + key.len()) as int) =~= key);
    assert(line.subrange((before.len() + key.len()) as int, line.len() as int) =~= rest);
}

/// The letters, digits, the underscore and the dot are part of a field's name.
pub proof fn names_are_made_of_letters(c: char)
    ensures
        log_scan::field_char(c) <==> (48 <= c as u32 <= 57 || 97 <= c as u32 <= 122 || 65 <= c as u32 <= 90 || c as u32
            == 95 || c as u32 == 46),
        log_scan::hex_char(c) <==> (48 <= c as u32 <= 57 || 97 <= c as u32 <= 102 || 65 <= c as u32 <= 70 || c as u32
            == 45),
{
}

/// A field that follows no letter, digit, underscore or dot is read up to a comma, a space,
/// a quotation mark or a closing bracket.
pub proof fn fields_are_read(before: Seq<char>, key: Seq<char>, value: Seq<char>, rest: Seq<char>)
    requires
        key.len() > 0,
        value.len() > 0 && text::trim(value) == value,
        forall|j: int|
            0 <= j < value.len() ==> (#[trigger] value[j]) != ',' && value[j] != ' ' && value[j] != '"' && value[j] != '}'
                && value[j] != ')',
        rest.len() > 0 ==> rest[0] == ',' || rest[0] == ' ' || rest[0] == '"' || rest[0] == '}' || rest[0] == ')',
        before.len() > 0 ==> before[before.len() - 1] == ' ' || before[before.len() - 1] == '(' || before[before.len() - 1]
            == '"',
        forall|j: int| 0 <= j < before.len() ==> !text::occurs(before + key + (value + rest), key, j),
    ensures
        log_scan::field(before + key + (value + rest), key) == Some(value),
{
    let tail = value + rest;
    let line = before + key + tail;
    occurs_behind(before, key, tail);
    let at = before.len() as int;
    first_is_found(line, key, at);
    assert(at > 0 ==> line[at - 1] == before[at - 1]);
    let stops = seq![',', ' ', '"', '}', ')'];
    assert(stops[0] == ',' && stops[1] == ' ' && stops[2] == '"' && stops[3] == '}' && stops[4] == ')');
    let stop = |x: char| stops.contains(x);
    assert forall|j: int| 0 <= j < value.len() implies !stop(tail[j]) by {
        assert(tail[j] == value[j]);
    }
    if value.len() < tail.len() {
        assert(tail[value.len() as int] == rest[0]);
        assert(stop(rest[0]));
    }
    text::until_unique(tail, stop, value.len() as int);
    assert(tail.subrange(0, value.len() as int) =~= value);
    assert(log_scan::field_value_at(line, at + key.len()) == value);
    assert(log_scan::field_from(line, key, 0) == Some(value));
}

/// What only ends like a field's name is none.
pub proof fn longer_names_are_other_fields(before: Seq<char>, key: Seq<char>, rest: Seq<char>)
    requires
        key.len() > 0,
        before.len() > 0,
        before[before.len() - 1] == '.' || before[before.len() - 1] == '_' || 'a' <= before[before.len() - 1] <= 'z',
        forall|j: int| j != before.len() ==> !text::occurs(before + key + rest, key, j),
    ensures
        log_scan::field(before + key + rest, key) is None,
        log_scan::model_field(before + key + rest, key) is None,
{
    let line = before + key + rest;
    occurs_behind(before, key, rest);
    let at = before.len() as int;
    first_is_found(line, key, at);
    assert(line[at - 1] == before[at - 1]);
    text::find_is_first(line, key, at + key.len());
    assert(text::find_from(line, key, at + key.len()) is None);
    assert(log_scan::field_from(line, key, at + key.len()) is None);
    assert(log_scan::field_from(line, key, 0) == log_scan::field_from(line, key, at + key.len()));
    assert(log_scan::model_field_from(line, key, at + key.len()) is None);
    assert(log_scan::model_field_from(line, key, 0) == log_scan::model_field_from(line, key, at + key.len()));
}

/// A model's name is read up to a comma, a space or a semicolon.
pub proof fn models_are_read(before: Seq<char>, key: Seq<char>, value: Seq<char>, rest: Seq<char>)
    requires
        key.len() > 0,
        value.len() > 0 && text::trim(value) == value,
        forall|j: int| 0 <= j < value.len() ==> (#[trigger] value[j]) != ',' && value[j] != ' ' && value[j] != ';',
        rest.len() > 0 ==> rest[0] == ',' || rest[0] == ' ' || rest[0] == ';',
        forall|j: int| 0 <= j < before.len() ==> !text::occurs(before + key + (value + rest), key, j),
    ensures
        log_scan::model_mark(before + key + (value + rest), key) == Some(value),
        before.len() == 0 || before[before.len() - 1] == ' ' ==> log_scan::model_field(
            before + key + (value + rest),
            key,
        ) == Some(value),
{
    let tail = value + rest;
    let line = before + key + tail;
    occurs_behind(before, key, tail);
    let at = before.len() as int;
    first_is_found(line, key, at);
    assert(at > 0 ==> line[at - 1] == before[at - 1]);
    let stops = seq![',', ' ', ';'];
    assert(stops[0] == ',' && stops[1] == ' ' && stops[2] == ';');
    let stop = |x: char| stops.contains(x);
    assert forall|j: int| 0 <= j < value.len() implies !stop(tail[j]) by {
        assert(tail[j] == value[j]);
    }
    if value.len() < tail.len() {
        assert(tail[value.len() as int] == rest[0]);
        assert(stop(rest[0]));
    }
    text::until_unique(tail, stop, value.len() as int);
    assert(tail.subrange(0, value.len() as int) =~= value);
    assert(log_scan::model_at(line, at + key.len()) == Some(value));
    if before.len() == 0 || before[before.len() - 1] == ' ' {
        assert(log_scan::model_field_from(line, key, 0) == log_scan::model_at(line, at + key.len()));
    }
}

/// An editor's conversation has 32 characters, or 36, all of them hexadecimal digits or
/// hyphens.
pub proof fn conversations_are_hexadecimal(s: Seq<char>, i: int)
    ensures
        log_scan::ide_session(s) ==> s.len() == 32 || s.len() == 36,
        log_scan::ide_session(s) && 0 <= i < s.len() ==> log_scan::hex_char(s[i]),
        (s.len() == 32 || s.len() == 36) && (forall|j: int| 0 <= j < s.len() ==> log_scan::hex_char(#[trigger] s[j]))
            ==> log_scan::ide_session(s),
{
}

proof fn brackets_are_read(
    line: Seq<char>,
    from: int,
    found: Option<(Seq<char>, Seq<char>)>,
    open: int,
    r: Seq<char>,
    s: Seq<char>,
)
    requires
        0 <= from <= open,
        open + 70 < line.len(),
        forall|j: int| from <= j < open ==> line[j] != '(',
        line[open] == '(',
        line.subrange(open + 1, open + 33) == r,
        line[open + 33] == '/',
        line.subrange(open + 34, open + 70) == s,
        line[open + 70] == ')',
        log_scan::hex_id(r, 32) && log_scan::hex_id(s, 36),
    ensures
        log_scan::pair_from(line, from, found) == log_scan::pair_from(line, open + 70, Some((r, s))),
{
    let rest = line.subrange(from, line.len() as int);
    let o = open - from;
    assert forall|j: int| 0 <= j < o implies rest[j] != '(' by {
        assert(rest[j] == line[from + j]);
    }
    assert(rest[o] == line[open]);
    text::until_unique(rest, |x: char| x == '(', o);
    let inner = rest.subrange(o + 1, rest.len() as int);
    assert forall|j: int| 0 <= j < 69 implies inner[j] != ')' by {
        assert(inner[j] == line[open + 1 + j]);
        if j < 32 {
            assert(line.subrange(open + 1, open + 33)[j] == line[open + 1 + j]);
            assert(log_scan::hex_char(r[j]));
        } else if j > 32 {
            assert(line.subrange(open + 34, open + 70)[j - 33] == line[open + 1 + j]);
            assert(log_scan::hex_char(s[j - 33]));
        }
    }
    assert(inner[69] == line[open + 70]);
    text::until_unique(inner, |x: char| x == ')', 69);
    let text_in = inner.subrange(0, 69);
    assert forall|j: int| 0 <= j < 32 implies text_in[j] != '/' by {
        assert(line.subrange(open + 1, open + 33)[j] == line[open + 1 + j]);
        assert(text_in[j] == line[open + 1 + j]);
        assert(log_scan::hex_char(r[j]));
    }
    assert(text_in[32] == line[open + 33]);
    text::until_unique(text_in, |x: char| x == '/', 32);
    assert(text_in.subrange(0, 32) =~= r);
    assert(text_in.subrange(33, 69) =~= s);
    assert(log_scan::id_pair(text_in) == Some((r, s)));
    assert(from + o + 1 + 69 == open + 70);
}

proof fn no_bracket_is_read(line: Seq<char>, from: int, found: Option<(Seq<char>, Seq<char>)>)
    requires
        0 <= from <= line.len(),
        forall|j: int| from <= j < line.len() ==> line[j] != '(',
    ensures
        log_scan::pair_from(line, from, found) == found,
{
    let rest = line.subrange(from, line.len() as int);
    assert forall|j: int| 0 <= j < rest.len() implies rest[j] != '(' by {
        assert(rest[j] == line[from + j]);
    }
    text::until_unique(rest, |x: char| x == '(', rest.len() as int);
}

spec fn bracketed(r: Seq<char>, s: Seq<char>) -> Seq<char> {
    seq!['('] + r + seq!['/'] + s + seq![')']
}

/// Request and session stand in brackets, with a slash between them, and the last such
/// brackets of a line count.
pub proof fn the_last_pair_counts(
    a: Seq<char>,
    r: Seq<char>,
    s: Seq<char>,
    m: Seq<char>,
    q: Seq<char>,
    t: Seq<char>,
    z: Seq<char>,
)
    requires
        log_scan::hex_id(r, 32) && log_scan::hex_id(s, 36) && log_scan::hex_id(q, 32) && log_scan::hex_id(t, 36),
        !a.contains('(') && !m.contains('(') && !z.contains('('),
    ensures
        log_scan::pair_from(
            a + (seq!['('] + r + seq!['/'] + s + seq![')']) + m + (seq!['('] + q + seq!['/'] + t + seq![')']) + z,
            0,
            None,
        ) == Some((q, t)),
        log_scan::pair_from(a + (seq!['('] + q + seq!['/'] + t + seq![')']) + z, 0, None) == Some((q, t)),
{
    one_pair_is_read(a, q, t, z);
    let x = bracketed(r, s);
    let y = bracketed(q, t);
    assert(x =~= seq!['('] + r + seq!['/'] + s + seq![')']);
    assert(y =~= seq!['('] + q + seq!['/'] + t + seq![')']);
    let line = a + x + m + y + z;
    let o = a.len() as int;
    assert forall|j: int| 0 <= j < o implies line[j] != '(' by {
        assert(line[j] == a[j]);
    }
    assert(line.subrange(o + 1, o + 33) =~= r);
    assert(line.subrange(o + 34, o + 70) =~= s);
    brackets_are_read(line, 0, None, o, r, s);
    let p = o + 71 + m.len();
    assert forall|j: int| o + 70 <= j < p implies line[j] != '(' by {
        if j > o + 70 {
            assert(line[j] == m[j - o - 71]);
        }
    }
    assert(line.subrange(p + 1, p + 33) =~= q);
    assert(line.subrange(p + 34, p + 70) =~= t);
    brackets_are_read(line, o + 70, Some((r, s)), p, q, t);
    assert forall|j: int| p + 70 <= j < line.len() implies line[j] != '(' by {
        if j > p + 70 {
            assert(line[j] == z[j - p - 71]);
        }
    }
    no_bracket_is_read(line, p + 70, Some((q, t)));
}

proof fn one_pair_is_read(a: Seq<char>, q: Seq<char>, t: Seq<char>, z: Seq<char>)
    requires
        log_scan::hex_id(q, 32) && log_scan::hex_id(t, 36),
        !a.contains('(') && !z.contains('('),
    ensures
        log_scan::pair_from(a + (seq!['('] + q + seq!['/'] + t + seq![')']) + z, 0, None) == Some((q, t)),
{
    let line = a + (seq!['('] + q + seq!['/'] + t + seq![')']) + z;
    let o = a.len() as int;
    assert forall|j: int| 0 <= j < o implies line[j] != '(' by {
        assert(line[j] == a[j]);
    }
    assert(line.subrange(o + 1, o + 33) =~= q);
    assert(line.subrange(o + 34, o + 70) =~= t);
    brackets_are_read(line, 0, None, o, q, t);
    assert forall|j: int| o + 70 <= j < line.len() implies line[j] != '(' by {
        if j > o + 70 {
            assert(line[j] == z[j - o - 71]);
        }
    }
    no_bracket_is_read(line, o + 70, Some((q, t)));
}

/// A quoted value is read behind its quoted name and a colon.
pub proof fn quoted_values_are_read(before: Seq<char>, key: Seq<char>, value: Seq<char>, rest: Seq<char>)
    requires
        key.len() > 0,
        value.len() > 0 && text::trim(value) == value && !value.contains('"') && value[value.len() - 1] != '\\',
        forall|j: int|
            0 <= j <= before.len() ==> !text::occurs(
                before + seq!['"'] + key + (seq!['"', ':', '"'] + value + seq!['"'] + rest),
                key,
                j,
            ),
    ensures
        log_scan::quoted_from(
            before + seq!['"'] + key + (seq!['"', ':', '"'] + value + seq!['"'] + rest),
            key,
            0,
        ) == Some(value),
{
    let tail = seq!['"', ':', '"'] + value + seq!['"'] + rest;
    let front = before + seq!['"'];
    let line = front + key + tail;
    occurs_behind(front, key, tail);
    let at = front.len() as int;
    first_is_found(line, key, at);
    let a = at + key.len();
    assert(line[at - 1] == front[at - 1]);
    assert(line[a] == tail[0] && line[a + 1] == tail[1] && line[a + 2] == tail[2]);
    let back = line.subrange(a + 3, line.len() as int);
    assert forall|j: int| 0 <= j < value.len() implies back[j] != '"' by {
        assert(back[j] == tail[j + 3]);
        assert(back[j] == value[j]);
    }
    assert(back[value.len() as int] == tail[value.len() as int + 3]);
    text::until_unique(back, |x: char| x == '"', value.len() as int);
    assert(back.subrange(0, value.len() as int) =~= value);
    assert(log_scan::quoted_value_at(line, key, at) == Some(value));
    assert(log_scan::quoted_from(line, key, 0) == Some(value));
}

/// Of an escaped text the quotation marks are read with their backslashes.
pub proof fn escaped_values_are_read(before: Seq<char>, key: Seq<char>, value: Seq<char>, rest: Seq<char>)
    requires
        key.len() > 0,
        value.len() > 0 && text::trim(value) == value && !value.contains('"'),
        forall|j: int|
            0 <= j <= before.len() ==> !text::occurs(
                before + seq!['"'] + key + (seq!['\\', '"', ':', '\\', '"'] + value + seq!['\\', '"'] + rest),
                key,
                j,
            ),
    ensures
        log_scan::quoted_from(
            before + seq!['"'] + key + (seq!['\\', '"', ':', '\\', '"'] + value + seq!['\\', '"'] + rest),
            key,
            0,
        ) == Some(value),
{
    let tail = seq!['\\', '"', ':', '\\', '"'] + value + seq!['\\', '"'] + rest;
    let front = before + seq!['"'];
    let line = front + key + tail;
    occurs_behind(front, key, tail);
    let at = front.len() as int;
    first_is_found(line, key, at);
    let a = at + key.len();
    assert(line[at - 1] == front[at - 1]);
    assert(line[a] == tail[0] && line[a + 1] == tail[1] && line[a + 2] == tail[2] && line[a + 3] == tail[3] && line[a + 4]
        == tail[4]);
    let back = line.subrange(a + 5, line.len() as int);
    let n = value.len() as int;
    assert forall|j: int| 0 <= j < n + 1 implies back[j] != '"' by {
        assert(back[j] == tail[j + 5]);
        if j < n {
            assert(back[j] == value[j]);
        }
    }
    assert(back[n] == tail[n + 5] && back[n + 1] == tail[n + 6]);
    text::until_unique(back, |x: char| x == '"', n + 1);
    assert(back.subrange(0, n + 1).subrange(0, n) =~= value);
    assert(log_scan::quoted_value_at(line, key, at) == Some(value));
    assert(log_scan::quoted_from(line, key, 0) == Some(value));
}

/// A conversation is read behind its tag, up to the closing bracket.
pub proof fn conversations_are_read_from_tags(before: Seq<char>, tag: Seq<char>, value: Seq<char>, rest: Seq<char>)
    requires
        tag.len() > 0,
        text::trim(value) == value,
        log_scan::ide_session(value),
        forall|j: int| 0 <= j < before.len() ==> !text::occurs(before + tag + (value + seq![']'] + rest), tag, j),
    ensures
        log_scan::tag_from(before + tag + (value + seq![']'] + rest), tag, 0) == Some(value),
{
    let tail = value + seq![']'] + rest;
    let line = before + tag + tail;
    occurs_behind(before, tag, tail);
    let at = before.len() as int;
    first_is_found(line, tag, at);
    let n = value.len() as int;
    assert forall|j: int| 0 <= j < n implies tail[j] != ']' by {
        assert(tail[j] == value[j]);
        assert(log_scan::hex_char(value[j]));
    }
    assert(tail[n] == ']');
    text::until_unique(tail, |x: char| x == ']', n);
    assert(tail.subrange(0, n) =~= value);
    assert(log_scan::tag_from(line, tag, 0) == Some(value));
}

/// A conversation that a field names counts before one in a tag, and both before one in
/// quotation marks; what is no conversation does not count.
pub proof fn conversations_are_named(line: Seq<char>, s: Seq<char>)
    ensures
        log_scan::field(line, "conversationId="@) == Some(s) && log_scan::ide_session(s)
            ==> log_scan::ide_conversation_of(line) == Some(s),
        log_scan::field(line, "conversationId="@) is None && log_scan::tag_from(line, "AcpAgent:"@, 0) == Some(s)
            ==> log_scan::ide_conversation_of(line) == Some(s),
        log_scan::field(line, "conversationId="@) is None && log_scan::tag_from(line, "AcpAgent:"@, 0) is None
            && log_scan::tag_from(line, "AcpConnection:"@, 0) == Some(s) ==> log_scan::ide_conversation_of(line) == Some(s),
        log_scan::ide_session_of(line) is None && log_scan::quoted(line, "conversationId"@) == Some(s)
            && log_scan::ide_session(s) ==> log_scan::ide_conversation_of(line) == Some(s),
        log_scan::ide_session_of(line) is None && log_scan::quoted(line, "conversationId"@) == Some(s)
            && !log_scan::ide_session(s) ==> log_scan::ide_conversation_of(line) is None,
{
}

/// A line's own login counts where the line bears the mark of one, and names somebody.
pub proof fn logins_name_the_account(line: Seq<char>, u: Seq<char>)
    requires
        log_scan::field(line, "uid="@) == Some(u),
    ensures
        log_scan::login_uid(line, AuthMarker::Absent) is None,
        text::lower(u) == "none"@ ==> log_scan::login_uid(line, AuthMarker::AuthDoInitProbe) is None
            && log_scan::login_uid(line, AuthMarker::AuthSessionChanged) is None,
        text::lower(u) != "none"@ ==> log_scan::login_uid(line, AuthMarker::AuthDoInitProbe) == (if text::has(
            line,
            "[AuthDoInitProbe]"@,
        ) {
            Some(u)
        } else {
            None
        }),
        text::lower(u) != "none"@ ==> log_scan::login_uid(line, AuthMarker::AuthSessionChanged) == (if text::has(
            line,
            "[PulseServiceLifecycle] Auth session changed:"@,
        ) {
            Some(u)
        } else {
            None
        }),
{
}

/// A model that is called auto, undefined or null is not known, whatever white space stands
/// around it; any other is.
pub proof fn nameless_models_do_not_count(v: Seq<char>)
    ensures
        text::trim(v).len() == 0 ==> !log_scan::known(v),
        text::trim(v) == "auto"@ || text::trim(v) == "undefined"@ || text::trim(v) == "null"@ ==> !log_scan::known(v),
        text::trim(v).len() > 0 && text::trim(v) != "auto"@ && text::trim(v) != "undefined"@ && text::trim(v) != "null"@
            ==> log_scan::known(v),
        log_scan::known(v) ==> log_scan::if_known(Some(v)) == Some(v),
        !log_scan::known(v) ==> log_scan::if_known(Some(v)) is None,
{
}

/// Either language says that a limit was met; a classification counts where it is one of
/// quota.
pub proof fn either_language_counts(line: Seq<char>)
    ensures
        text::has(line, "超出频率限制"@) ==> log_scan::quota(line),
        text::has(line, "usage exceeds frequency limit"@) ==> log_scan::quota(line),
        log_scan::quota(line) ==> text::has(line, "超出频率限制"@) || text::has(line, "usage exceeds frequency limit"@),
        log_scan::classifies(line) ==> text::has(line, "category=quota"@),
        text::has(line, "refusal classified"@) && text::has(line, "category=quota"@) ==> log_scan::classifies(line),
{
}

/// A line that merely carries the output of a tool changes nothing.
pub proof fn outputs_of_tools_are_passed(
    st: ScannerV,
    line: Seq<char>,
    stamp: Option<int>,
    format: LogFormat,
    auth: AuthMarker,
    file_session: Option<Seq<char>>,
)
    ensures
        text::has(log_scan::tags_of(line), "SandboxShell"@) || text::starts_with(
            log_scan::body_of(line),
            "ProcessOutput"@,
        ) || text::starts_with(log_scan::body_of(line), "sandbox attempt output"@) ==> log_scan::scan_line(
            st,
            line,
            stamp,
            format,
            auth,
            file_session,
        ) == st,
{
}

/// Of an editor's line the model last seen for its conversation counts, then the one it
/// names, then that of the last failed call.
pub proof fn editor_lines_have_the_model_of_their_conversation(
    line: Seq<char>,
    models: Map<Seq<char>, Seq<char>>,
    failed: Option<Seq<char>>,
    c: Seq<char>,
    m: Seq<char>,
)
    requires
        log_scan::ide_conversation_of(line) == Some(c),
    ensures
        ({
            let (session, model) = log_scan::attribute_ide(line, models, failed);
            &&& session == Some(c)
            &&& models.contains_key(c) ==> model == Some(models[c])
            &&& !models.contains_key(c) && log_scan::ide_model(line) == Some(m) ==> model == Some(m)
            &&& !models.contains_key(c) && log_scan::ide_model(line) is None && log_scan::ide_quoted_model(line) == Some(
                m,
            ) ==> model == Some(m)
            &&& !models.contains_key(c) && log_scan::ide_model(line) is None && log_scan::ide_quoted_model(line) is None
                ==> model == failed
        }),
{
}

/// Offsets are hours, and minutes where there are any, east of Greenwich with a plus and
/// west of it with a minus.
pub proof fn offsets_are_hours_and_minutes(hs: Seq<char>, ms: Seq<char>, h: int, m: int, plus: bool)
    requires
        text::unsigned_value(hs) == Some(h),
        text::unsigned_value(ms) == Some(m),
        0 <= h < 24 && 0 <= m < 60,
    ensures
        log_scan::hours_minutes(hs + seq![':'] + ms) == Some((h as i32, m as i32)),
        hs.len() <= 2 ==> log_scan::hours_minutes(hs) == Some((h as i32, 0i32)),
        hs.len() == 2 && ms.len() == 2 ==> log_scan::hours_minutes(hs + ms) == Some((h as i32, m as i32)),
{
    let s = hs + seq![':'] + ms;
    let n = hs.len() as int;
    assert forall|j: int| 0 <= j < n implies s[j] != ':' by {
        assert(s[j] == hs[j]);
        assert(text::digit(hs[j]));
    }
    assert(s[n] == ':');
    text::until_unique(s, |x: char| x == ':', n);
    assert(s.subrange(0, n) =~= hs);
    assert(s.subrange(n + 1, s.len() as int) =~= ms);
    assert forall|j: int| 0 <= j < n implies hs[j] != ':' by {
        assert(text::digit(hs[j]));
    }
    text::until_unique(hs, |x: char| x == ':', n);
    let d = hs + ms;
    assert forall|j: int| 0 <= j < d.len() implies d[j] != ':' by {
        if j < n {
            assert(text::digit(hs[j]));
        } else {
            assert(d[j] == ms[j - n]);
            assert(text::digit(ms[j - n]));
        }
    }
    text::until_unique(d, |x: char| x == ':', d.len() as int);
    if hs.len() == 2 && ms.len() == 2 {
        assert(d.subrange(0, 2) =~= hs);
        assert(d.subrange(2, 4) =~= ms);
    }
}

/// The offset that follows `UTC`: seconds east of Greenwich with a plus, as many west of it
/// with a minus.
pub proof fn offsets_are_east_or_west(digits: Seq<char>, rest: Seq<char>, h: i32, m: i32)
    requires
        log_scan::hours_minutes(digits) == Some((h, m)),
        0 <= h < 24 && 0 <= m < 60,
        forall|j: int| 0 <= j < digits.len() ==> log_scan::offset_char(#[trigger] digits[j]),
        rest.len() > 0 ==> !log_scan::offset_char(rest[0]),
    ensures
        log_scan::utc_offset("UTC"@ + seq!['+'] + digits + rest) == Some((h * 3600 + m * 60) as i32),
        log_scan::utc_offset("UTC"@ + seq!['-'] + digits + rest) == Some((-(h * 3600 + m * 60)) as i32),
        log_scan::utc_offset("UTC"@ + rest) is Some ==> rest.len() > 0 && (rest[0] == '+' || rest[0] == '-'),
{
    offset_is_read('+', digits, rest, h, m);
    offset_is_read('-', digits, rest, h, m);
    let s = "UTC"@ + rest;
    assert(s.subrange(0, "UTC"@.len() as int) =~= "UTC"@);
    assert(text::occurs(s, "UTC"@, 0));
    assert(s.subrange("UTC"@.len() as int, s.len() as int) =~= rest);
}

proof fn offset_is_read(sign: char, digits: Seq<char>, rest: Seq<char>, h: i32, m: i32)
    requires
        sign == '+' || sign == '-',
        log_scan::hours_minutes(digits) == Some((h, m)),
        0 <= h < 24 && 0 <= m < 60,
        forall|j: int| 0 <= j < digits.len() ==> log_scan::offset_char(#[trigger] digits[j]),
        rest.len() > 0 ==> !log_scan::offset_char(rest[0]),
    ensures
        log_scan::utc_offset("UTC"@ + seq![sign] + digits + rest) == Some(
            (if sign == '+' {
                h * 3600 + m * 60
            } else {
                -(h * 3600 + m * 60)
            }) as i32,
        ),
{
    let s = "UTC"@ + seq![sign] + digits + rest;
    let n = "UTC"@.len() as int;
    assert(s.subrange(0, n) =~= "UTC"@);
    assert(text::occurs(s, "UTC"@, 0));
    let back = s.subrange(n, s.len() as int);
    assert(back[0] == sign);
    let d = back.subrange(1, back.len() as int);
    let k = digits.len() as int;
    assert forall|j: int| 0 <= j < k implies log_scan::offset_char(d[j]) by {
        assert(d[j] == digits[j]);
    }
    assert(d.len() > k ==> d[k] == rest[0]);
    text::until_unique(d, |x: char| !log_scan::offset_char(x), k);
    assert(d.subrange(0, k) =~= digits);
    assert(h.wrapping_mul(3600) == h * 3600);
    assert(m.wrapping_mul(60) == m * 60);
}

/// A reset time is read behind the words that announce it, in the zone that the line names;
/// the Chinese words count first.
pub proof fn reset_times_are_read(before: Seq<char>, rest: Seq<char>, w: Wall, o: i32)
    requires
        log_scan::wall_prefix(rest) == Some(w),
        log_scan::utc_offset(rest) == Some(o),
    ensures
        no_mark(before + "将在 "@ + rest, "将在 "@, before.len() as int) ==> log_scan::reset_at(
            before + "将在 "@ + rest,
        ) == clock::zoned(w, o as int),
        no_mark(before + "will reset at "@ + rest, "will reset at "@, before.len() as int) && !text::has(
            before + "will reset at "@ + rest,
            "将在 "@,
        ) ==> log_scan::reset_at(before + "will reset at "@ + rest) == clock::zoned(w, o as int),
{
    let zh = before + "将在 "@ + rest;
    occurs_behind(before, "将在 "@, rest);
    if no_mark(zh, "将在 "@, before.len() as int) {
        first_is_found(zh, "将在 "@, before.len() as int);
    }
    let en = before + "will reset at "@ + rest;
    occurs_behind(before, "will reset at "@, rest);
    if no_mark(en, "will reset at "@, before.len() as int) && !text::has(en, "将在 "@) {
        first_is_found(en, "will reset at "@, before.len() as int);
        text::find_is_first(en, "将在 "@, 0);
    }
}

/// The words stand nowhere before that place.
pub open spec fn no_mark(line: Seq<char>, mark: Seq<char>, at: int) -> bool {
    forall|j: int| 0 <= j < at ==> !text::occurs(line, mark, j)
}

/// A time that a line begins with: an instant stands for itself; between square brackets
/// stands a local time, in the American order or, where that does not read, with the year
/// in front.
pub proof fn times_are_read_from_the_head(t: Seq<char>, rest: Seq<char>, w: Wall)
    requires
        !t.contains(']'),
        text::trim_start(seq!['['] + t + seq![']'] + rest) == seq!['['] + t + seq![']'] + rest,
        clock::instant_of_rfc3339(
            (seq!['['] + t + seq![']'] + rest).subrange(
                0,
                text::until(seq!['['] + t + seq![']'] + rest, |x: char| text::white(x)),
            ),
        ) is None,
    ensures
        clock::wall_of_text(text::trim(t), "%m/%d/%Y, %I:%M:%S %p%.3f"@) == Some(w) ==> log_scan::stamp_of(
            seq!['['] + t + seq![']'] + rest,
            LogFormat::WorkBuddy,
        ) == Stamp::Wall(w),
        clock::wall_of_text(text::trim(t), "%m/%d/%Y, %I:%M:%S %p%.3f"@) is None && clock::wall_of_text(
            text::trim(t),
            "%Y/%m/%d %H:%M:%S%.3f"@,
        ) == Some(w) ==> log_scan::stamp_of(seq!['['] + t + seq![']'] + rest, LogFormat::WorkBuddy) == Stamp::Wall(w),
{
    let line = seq!['['] + t + seq![']'] + rest;
    assert(line[0] == '[');
    let back = line.subrange(1, line.len() as int);
    let n = t.len() as int;
    assert forall|j: int| 0 <= j < n implies back[j] != ']' by {
        assert(back[j] == t[j]);
    }
    assert(back[n] == ']');
    text::until_unique(back, |x: char| x == ']', n);
    assert(back.subrange(0, n) =~= t);
}

/// Every hyphen counts.
pub proof fn every_hyphen_counts(s: Seq<char>, c: char)
    ensures
        log_scan::hyphens(Seq::empty()) == 0,
        log_scan::hyphens(s.push(c)) == log_scan::hyphens(s) + (if c == '-' {
            1int
        } else {
            0int
        }),
{
    assert(s.push(c).subrange(0, s.push(c).len() - 1) =~= s);
}

/// The session that a file's name gives is a UUID, and the file lies where session logs lie.
pub proof fn session_logs_are_named_by_their_session(path: Seq<char>)
    ensures
        log_scan::file_session(path) matches Some(s) ==> s.len() == 36 && log_scan::hyphens(s) == 4 && paths::parts(
            path,
            false,
        ).len() >= 3 && s == paths::stem(paths::parts(path, false)[0]) && paths::parts(path, false)[1] == "conversations"@
            && paths::parts(path, false)[2] == "sdk"@,
        paths::parts(path, false).len() >= 3 && paths::parts(path, false)[1] == "conversations"@ && paths::parts(
            path,
            false,
        )[2] == "sdk"@ && log_scan::hex_id(paths::stem(paths::parts(path, false)[0]), 36) && log_scan::hyphens(
            paths::stem(paths::parts(path, false)[0]),
        ) == 4 ==> log_scan::file_session(path) == Some(paths::stem(paths::parts(path, false)[0])),
{
}

/// The lines are read one after the other, each with its own time.
pub proof fn lines_are_read_in_turn(
    st: ScannerV,
    lines: Seq<Seq<char>>,
    stamps: Seq<Option<int>>,
    line: Seq<char>,
    stamp: Option<int>,
    i: int,
    format: LogFormat,
    auth: AuthMarker,
    file_session: Option<Seq<char>>,
)
    requires
        0 <= i <= lines.len(),
        stamps.len() == lines.len(),
    ensures
        log_scan::scan_from(st, lines.push(line), stamps.push(stamp), i, format, auth, file_session)
            == log_scan::scan_line(
            log_scan::scan_from(st, lines, stamps, i, format, auth, file_session),
            line,
            stamp,
            format,
            auth,
            file_session,
        ),
    decreases lines.len() - i,
{
    if i < lines.len() {
        assert(lines.push(line)[i] == lines[i] && stamps.push(stamp)[i] == stamps[i]);
        let next = log_scan::scan_line(st, lines[i], stamps[i], format, auth, file_session);
        lines_are_read_in_turn(next, lines, stamps, line, stamp, i + 1, format, auth, file_session);
    } else {
        let next = log_scan::scan_line(st, line, stamp, format, auth, file_session);
        assert(log_scan::scan_from(next, lines.push(line), stamps.push(stamp), i + 1, format, auth, file_session) == next);
        assert(log_scan::scan_from(st, lines, stamps, i, format, auth, file_session) == st);
    }
}

} // verus!
