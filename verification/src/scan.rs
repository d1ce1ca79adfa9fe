//! Reading a session transcript, one JSON line at a time.
use vstd::prelude::*;

use crate::json::{json_document, json_get, json_str_field, parse_json_text, JsonValue};
use crate::role::{law_role_names, role_named, MessageRole};
use crate::session::{opt_text, preview_view, PreviewMessage, SessionEntry};
use crate::text::{
    blank, chars_of, is_blank, law_truncation_bounds, string_of, truncate_with_ellipsis,
    truncated,
};
use crate::time::{instant_of_rfc3339, rfc3339_instant, Timestamp};
use crate::title::{derive_title_candidate, title_candidate};

verus! {

/// Most transcript lines read from one file.
pub const LINE_LIMIT: usize = 400;

/// Most messages previewed for one session.
pub const PREVIEW_LIMIT: usize = 16;

/// Longest previewed message text, in characters.
pub const PREVIEW_CHAR_LIMIT: usize = 600;

/// Why a transcript could not be read.
#[derive(Debug)]
pub enum SessionError {
    /// A non-blank line was not a JSON document.
    InvalidJson(serde_json::Error),
}

/// Whether the scan goes on after a line.
#[derive(Clone, Copy, Debug, PartialEq, Eq, Structural)]
pub enum ScanProgress {
    /// More lines may be fed.
    Continue,
    /// The scan has read enough; further lines are not needed.
    Done,
}

/// What has been gathered from a transcript so far.
pub struct ScanView {
    pub created_at: Option<Timestamp>,
    pub session_id: Option<Seq<char>>,
    pub instructions: Option<Seq<char>>,
    pub cwd: Option<Seq<char>>,
    pub originator: Option<Seq<char>>,
    pub preview: Seq<(MessageRole, Seq<char>)>,
    pub first_prompt: Option<Seq<char>>,
    pub lines_read: nat,
}

/// The state of reading one transcript.
pub struct SessionScan {
    created_at: Option<Timestamp>,
    session_id: Option<String>,
    instructions: Option<String>,
    cwd: Option<String>,
    originator: Option<String>,
    preview_items: Vec<PreviewMessage>,
    first_prompt: Option<String>,
    lines_read: usize,
}

impl View for SessionScan {
    type V = ScanView;

    closed spec fn view(&self) -> ScanView {
        ScanView {
            created_at: self.created_at,
            session_id: opt_text(self.session_id),
            instructions: opt_text(self.instructions),
            cwd: opt_text(self.cwd),
            originator: opt_text(self.originator),
            preview: preview_view(self.preview_items@),
            first_prompt: opt_text(self.first_prompt),
            lines_read: self.lines_read as nat,
        }
    }
}

/// The empty scan.
pub open spec fn scan_start() -> ScanView {
    ScanView {
        created_at: None,
        session_id: None,
        instructions: None,
        cwd: None,
        originator: None,
        preview: Seq::empty(),
        first_prompt: None,
        lines_read: 0,
    }
}

/// Whether a scan has read enough: 16 previewed messages or 400 lines.
pub open spec fn scan_done(s: ScanView) -> bool {
    s.preview.len() >= PREVIEW_LIMIT || s.lines_read >= LINE_LIMIT
}

/// The limits a scan keeps: at most 16 previewed messages, each of at most
/// 600 characters, and at most 400 lines read.
pub open spec fn scan_bounded(s: ScanView) -> bool {
    &&& s.preview.len() <= PREVIEW_LIMIT
    &&& s.lines_read <= LINE_LIMIT
    &&& forall|i: int| 0 <= i < s.preview.len() ==> (#[trigger] s.preview[i]).1.len() <= PREVIEW_CHAR_LIMIT
}

/// `o`, or the empty text when it is absent (`unwrap_or_default`).
pub open spec fn text_or_empty(o: Option<Seq<char>>) -> Seq<char> {
    match o {
        Some(t) => t,
        None => Seq::empty(),
    }
}

/// What one content part of a message contributes: the text of a text part,
/// `[name]` for a tool part, nothing otherwise.
pub open spec fn content_piece(item: JsonValue) -> Option<Seq<char>> {
    let kind = text_or_empty(json_str_field(item, "type"@));
    if kind == "input_text"@ || kind == "output_text"@ || kind == "text"@ {
        json_str_field(item, "text"@)
    } else if kind == "tool_use"@ || kind == "tool_result"@ {
        match json_str_field(item, "name"@) {
            Some(name) => Some(seq!['['] + name + seq![']']),
            None => None,
        }
    } else {
        None
    }
}

/// The contributions of `items`, joined by blank lines.
pub open spec fn joined_pieces(items: Seq<JsonValue>) -> Seq<char>
    decreases items.len(),
{
    if items.len() == 0 {
        Seq::empty()
    } else {
        let acc = joined_pieces(items.drop_last());
        match content_piece(items.last()) {
            None => acc,
            Some(p) => if acc.len() == 0 {
                p
            } else {
                acc + seq!['\n', '\n'] + p
            },
        }
    }
}

/// The text of a message's `content`: for an array, its parts' contributions
/// joined by blank lines (none when that is empty); otherwise its string
/// member `text`.
pub open spec fn message_text(content: Option<JsonValue>) -> Option<Seq<char>> {
    match content {
        None => None,
        Some(JsonValue::Array(items)) => {
            let combined = joined_pieces(items@);
            if combined.len() == 0 {
                None
            } else {
                Some(combined)
            }
        },
        Some(c) => json_str_field(c, "text"@),
    }
}

/// What a `session_meta` record's payload changes: the id and creation time
/// when present (a time only when it parses), and the instructions, working
/// directory and originator, each replaced by the payload's (possibly absent)
/// value.
pub open spec fn apply_session_meta(s: ScanView, payload: JsonValue) -> ScanView {
    let s1 = match json_str_field(payload, "id"@) {
        Some(id) => ScanView { session_id: Some(id), ..s },
        None => s,
    };
    let s2 = match json_str_field(payload, "timestamp"@) {
        Some(ts) => match rfc3339_instant(ts) {
            Some(t) => ScanView { created_at: Some(t), ..s1 },
            None => s1,
        },
        None => s1,
    };
    ScanView {
        instructions: json_str_field(payload, "instructions"@),
        cwd: json_str_field(payload, "cwd"@),
        originator: json_str_field(payload, "originator"@),
        ..s2
    }
}

/// What a `response_item` record's payload changes: a `message` payload with
/// text adds that text, cut to 600 characters, under its role (`other` when
/// the role is missing); the first user message's text also proposes the
/// session's title.
pub open spec fn apply_response_item(s: ScanView, payload: JsonValue) -> ScanView {
    if text_or_empty(json_str_field(payload, "type"@)) != "message"@ {
        s
    } else {
        let role = role_named(
            match json_str_field(payload, "role"@) {
                Some(r) => r,
                None => "other"@,
            },
        );
        match message_text(json_get(payload, "content"@)) {
            None => s,
            Some(raw) => ScanView {
                preview: s.preview.push((role, truncated(raw, PREVIEW_CHAR_LIMIT as nat))),
                first_prompt: if s.first_prompt is None && role == MessageRole::User {
                    title_candidate(raw)
                } else {
                    s.first_prompt
                },
                ..s
            },
        }
    }
}

/// What one parsed record changes, by its `type`.
pub open spec fn apply_record(s: ScanView, record: JsonValue) -> ScanView {
    let kind = text_or_empty(json_str_field(record, "type"@));
    if kind == "session_meta"@ {
        match json_get(record, "payload"@) {
            Some(p) => apply_session_meta(s, p),
            None => s,
        }
    } else if kind == "response_item"@ {
        match json_get(record, "payload"@) {
            Some(p) => apply_response_item(s, p),
            None => s,
        }
    } else {
        s
    }
}

/// What reading one line changes: the line is counted; a blank line changes
/// nothing more; any other line must be a JSON document (else the transcript
/// cannot be read) and is applied as a record.
pub open spec fn apply_line(s: ScanView, line: Seq<char>) -> Option<ScanView> {
    let counted = ScanView { lines_read: s.lines_read + 1, ..s };
    if blank(line) {
        Some(counted)
    } else {
        match json_document(line) {
            Some(record) => Some(apply_record(counted, record)),
            None => None,
        }
    }
}


/// The title proposed by the first previewed message whose text proposes one.
pub open spec fn first_preview_title(preview: Seq<(MessageRole, Seq<char>)>) -> Option<Seq<char>>
    decreases preview.len(),
{
    if preview.len() == 0 {
        None
    } else {
        match title_candidate(preview[0].1) {
            Some(t) => Some(t),
            None => first_preview_title(preview.drop_first()),
        }
    }
}

/// The text of the string member `key` of `v`, owned.
fn field_text(v: &JsonValue, key: &str) -> (r: Option<String>)
    ensures
        opt_text(r) == json_str_field(*v, key@),
{
    match v.str_field(key) {
        Some(t) => Some(t.to_owned()),
        None => None,
    }
}

/// The characters of the string member `key` of `v`, or none when it is absent.
fn field_chars(v: &JsonValue, key: &str) -> (r: Vec<char>)
    ensures
        r@ == text_or_empty(json_str_field(*v, key@)),
{
    match v.str_field(key) {
        Some(t) => chars_of(t),
        None => Vec::new(),
    }
}

fn is_text(v: &Vec<char>, literal: &str) -> (r: bool)
    ensures
        r == (v@ == literal@),
{
    crate::text::chars_equal(v, &chars_of(literal))
}

fn content_piece_chars(item: &JsonValue) -> (r: Option<Vec<char>>)
    ensures
        r matches Some(p) ==> content_piece(*item) == Some(p@),
        r is None ==> content_piece(*item) is None,
{
    let kind = field_chars(item, "type");
    if is_text(&kind, "input_text") || is_text(&kind, "output_text") || is_text(&kind, "text") {
        match item.str_field("text") {
            Some(t) => Some(chars_of(t)),
            None => None,
        }
    } else if is_text(&kind, "tool_use") || is_text(&kind, "tool_result") {
        match item.str_field("name") {
            Some(name) => {
                let name_chars = chars_of(name);
                let mut p: Vec<char> = Vec::new();
                p.push('[');
                let mut k: usize = 0;
                while k < name_chars.len()
                    invariant
                        k <= name_chars.len(),
                        p@ == seq!['['] + name_chars@.take(k as int),
                    decreases name_chars.len() - k,
                {
                    p.push(name_chars[k]);
                    k += 1;
                }
                p.push(']');
                assert(name_chars@.take(name_chars.len() as int) =~= name_chars@);
                assert(p@ =~= seq!['['] + name_chars@ + seq![']']);
                Some(p)
            },
            None => None,
        }
    } else {
        None
    }
}

fn append_chars(dst: &mut Vec<char>, src: &Vec<char>)
    ensures
        final(dst)@ == old(dst)@ + src@,
{
    let mut k: usize = 0;
    while k < src.len()
        invariant
            k <= src.len(),
            dst@ == old(dst)@ + src@.take(k as int),
        decreases src.len() - k,
    {
        dst.push(src[k]);
        k += 1;
    }
    assert(src@.take(src.len() as int) =~= src@);
}

/// The text of a message's `content`, if it has any.
pub fn extract_text(content: Option<&JsonValue>) -> (r: Option<String>)
    ensures
        opt_text(r) == message_text(
            match content {
                Some(c) => Some(*c),
                None => None,
            },
        ),
{
    match content {
        None => None,
        Some(c) => match c {
            JsonValue::Array(items) => {
                let mut combined: Vec<char> = Vec::new();
                let mut i: usize = 0;
                while i < items.len()
                    invariant
                        i <= items.len(),
                        combined@ == joined_pieces(items@.take(i as int)),
                    decreases items.len() - i,
                {
                    assert(items@.take(i + 1).drop_last() =~= items@.take(i as int));
                    match content_piece_chars(&items[i]) {
                        Some(p) => {
                            if combined.len() > 0 {
                                combined.push('\n');
                                combined.push('\n');
                            }
                            append_chars(&mut combined, &p);
                        },
                        None => {},
                    }
                    i += 1;
                    assert(combined@ =~= joined_pieces(items@.take(i as int)));
                }
                assert(items@.take(items.len() as int) =~= items@);
                if combined.len() == 0 {
                    None
                } else {
                    Some(string_of(&combined))
                }
            },
            _ => field_text(c, "text"),
        },
    }
}


/// A record that changes nothing but the previewed messages keeps the limits
/// of a scan that had room for one more message.
proof fn lemma_apply_record_bounded(s: ScanView, record: JsonValue)
    requires
        scan_bounded(s),
        s.preview.len() < PREVIEW_LIMIT,
    ensures
        scan_bounded(apply_record(s, record)),
        apply_record(s, record).lines_read == s.lines_read,
{
    let kind = text_or_empty(json_str_field(record, "type"@));
    if kind == "response_item"@ {
        if let Some(p) = json_get(record, "payload"@) {
            if text_or_empty(json_str_field(p, "type"@)) == "message"@ {
                if let Some(raw) = message_text(json_get(p, "content"@)) {
                    law_truncation_bounds(raw, PREVIEW_CHAR_LIMIT as nat);
                    let t = apply_record(s, record);
                    assert forall|i: int| 0 <= i < t.preview.len() implies (
                    #[trigger] t.preview[i]).1.len() <= PREVIEW_CHAR_LIMIT by {
                        if i < s.preview.len() {
                            assert(t.preview[i] == s.preview[i]);
                        }
                    }
                }
            }
        }
    }
}

impl SessionScan {
    /// A scan that has read nothing yet.
    pub fn new() -> (r: SessionScan)
        ensures
            r@ == scan_start(),
            scan_bounded(r@),
    {
        let r = SessionScan {
            created_at: None,
            session_id: None,
            instructions: None,
            cwd: None,
            originator: None,
            preview_items: Vec::new(),
            first_prompt: None,
            lines_read: 0,
        };
        assert(preview_view(r.preview_items@) =~= Seq::empty());
        r
    }

    /// Whether the scan has read enough.
    pub fn is_done(&self) -> (r: bool)
        ensures
            r == scan_done(self@),
    {
        proof {
            assert(self@.preview.len() == self.preview_items.len());
        }
        self.preview_items.len() >= PREVIEW_LIMIT || self.lines_read >= LINE_LIMIT
    }

    fn apply_session_meta(&mut self, payload: &JsonValue)
        ensures
            final(self)@ == apply_session_meta(old(self)@, *payload),
    {
        if let Some(id) = payload.str_field("id") {
            self.session_id = Some(id.to_owned());
        }
        if let Some(ts) = payload.str_field("timestamp") {
            if let Some(t) = instant_of_rfc3339(ts) {
                self.created_at = Some(t);
            }
        }
        self.instructions = field_text(payload, "instructions");
        self.cwd = field_text(payload, "cwd");
        self.originator = field_text(payload, "originator");
        assert(self@ == apply_session_meta(old(self)@, *payload));
    }

    fn apply_response_item(&mut self, payload: &JsonValue)
        ensures
            final(self)@ == apply_response_item(old(self)@, *payload),
    {
        let kind = field_chars(payload, "type");
        if !is_text(&kind, "message") {
            return;
        }
        let role = match payload.str_field("role") {
            Some(r) => MessageRole::from_str(r),
            None => MessageRole::from_str("other"),
        };
        if let Some(raw) = extract_text(payload.get("content")) {
            let text = truncate_with_ellipsis(raw.as_str(), PREVIEW_CHAR_LIMIT);
            if self.first_prompt.is_none() && role == MessageRole::User {
                self.first_prompt = derive_title_candidate(raw.as_str());
            }
            let ghost before = self.preview_items@;
            self.preview_items.push(PreviewMessage { role, text });
            assert(preview_view(self.preview_items@) =~= preview_view(before).push(
                (role, truncated(raw@, PREVIEW_CHAR_LIMIT as nat)),
            ));
        }
        assert(self@ == apply_response_item(old(self)@, *payload));
    }

    /// Applies one parsed transcript record.
    pub fn feed_record(&mut self, record: &JsonValue)
        ensures
            final(self)@ == apply_record(old(self)@, *record),
    {
        let kind = field_chars(record, "type");
        if is_text(&kind, "session_meta") {
            if let Some(p) = record.get("payload") {
                self.apply_session_meta(p);
            }
        } else if is_text(&kind, "response_item") {
            if let Some(p) = record.get("payload") {
                self.apply_response_item(p);
            }
        }
    }

    /// Reads one line of the transcript. Once the scan has read enough, a line
    /// changes nothing and `Done` is returned. Otherwise the line is applied
    /// as [`apply_line`] says; the result tells whether the scan has now read
    /// enough, and a line that is not JSON is an error that leaves the scan
    /// unchanged.
    pub fn feed_line(&mut self, line: &str) -> (r: Result<ScanProgress, SessionError>)
        ensures
            scan_done(old(self)@) ==> (r matches Ok(ScanProgress::Done) && final(self)@ == old(
                self,
            )@),
            !scan_done(old(self)@) ==> match r {
                Ok(p) => apply_line(old(self)@, line@) == Some(final(self)@) && (p
                    == ScanProgress::Done <==> scan_done(final(self)@)),
                Err(_) => apply_line(old(self)@, line@) is None && final(self)@ == old(self)@,
            },
            scan_bounded(old(self)@) ==> scan_bounded(final(self)@),
    {
        if self.is_done() {
            return Ok(ScanProgress::Done);
        }
        let ghost before = self@;
        if is_blank(line) {
            self.lines_read = self.lines_read + 1;
            assert(self@ == ScanView { lines_read: before.lines_read + 1, ..before });
        } else {
            match parse_json_text(line) {
                Err(e) => {
                    return Err(SessionError::InvalidJson(e));
                },
                Ok(record) => {
                    self.lines_read = self.lines_read + 1;
                    assert(self@ == ScanView { lines_read: before.lines_read + 1, ..before });
                    proof {
                        if scan_bounded(before) {
                            lemma_apply_record_bounded(self@, record);
                        }
                    }
                    self.feed_record(&record);
                },
            }
        }
        if self.is_done() {
            Ok(ScanProgress::Done)
        } else {
            Ok(ScanProgress::Continue)
        }
    }

    /// Whether a session was found whose creation time the transcript does
    /// not give, so that the time has to come from elsewhere.
    pub fn needs_fallback_time(&self) -> (r: bool)
        ensures
            r == (self@.session_id is Some && self@.created_at is None),
    {
        self.session_id.is_some() && self.created_at.is_none()
    }

    /// The session that the transcript describes: none when no `session_meta`
    /// record gave an id. Its creation time is the transcript's, else
    /// `fallback_created_at`; its title is the one the first user message
    /// proposed, else the first that a previewed message's text proposes.
    pub fn finish(self, file_path: String, fallback_created_at: Option<Timestamp>) -> (r: Option<
        SessionEntry,
    >)
        requires
            self@.session_id is Some && self@.created_at is None ==> fallback_created_at is Some,
        ensures
            r is None <==> self@.session_id is None,
            r matches Some(e) ==> {
                &&& self@.session_id == Some(e.id@)
                &&& e.file_path@ == file_path@
                &&& e.created_at == match self@.created_at {
                    Some(t) => t,
                    None => fallback_created_at->0,
                }
                &&& opt_text(e.originator) == self@.originator
                &&& opt_text(e.instructions) == self@.instructions
                &&& opt_text(e.cwd) == self@.cwd
                &&& preview_view(e.preview_items@) == self@.preview
                &&& opt_text(e.title) == match self@.first_prompt {
                    Some(t) => Some(t),
                    None => first_preview_title(self@.preview),
                }
            },
    {
        let ghost v = self@;
        let SessionScan {
            created_at,
            session_id,
            instructions,
            cwd,
            originator,
            preview_items,
            first_prompt,
            lines_read: _,
        } = self;
        let id = match session_id {
            Some(id) => id,
            None => return None,
        };
        let created_at = match created_at {
            Some(t) => t,
            None => match fallback_created_at {
                Some(t) => t,
                None => return None,
            },
        };
        let title = match first_prompt {
            Some(t) => Some(t),
            None => {
                let mut found: Option<String> = None;
                let mut i: usize = 0;
                assert(v.preview.skip(0) =~= v.preview);
                while i < preview_items.len() && found.is_none()
                    invariant
                        i <= preview_items.len(),
                        preview_view(preview_items@) == v.preview,
                        found is None ==> first_preview_title(v.preview) == first_preview_title(
                            v.preview.skip(i as int),
                        ),
                        found matches Some(t) ==> first_preview_title(v.preview) == Some(t@),
                    decreases preview_items.len() - i,
                {
                    assert(v.preview.skip(i as int)[0] == v.preview[i as int]);
                    assert(v.preview.skip(i as int).drop_first() =~= v.preview.skip(i + 1));
                    found = derive_title_candidate(preview_items[i].text.as_str());
                    i += 1;
                }
                proof {
                    if found is None {
                        assert(v.preview.skip(i as int).len() == 0);
                    }
                }
                found
            },
        };
        Some(
            SessionEntry {
                id,
                file_path,
                created_at,
                originator,
                instructions,
                cwd,
                title,
                preview_items,
            },
        )
    }
}


/// Reading `lines` in order from `s`, as a caller that feeds each line and
/// stops once the scan is done: `None` when a line read is not JSON.
pub open spec fn scan_through(s: ScanView, lines: Seq<Seq<char>>) -> Option<ScanView>
    decreases lines.len(),
{
    if lines.len() == 0 || scan_done(s) {
        Some(s)
    } else {
        match apply_line(s, lines[0]) {
            None => None,
            Some(t) => scan_through(t, lines.drop_first()),
        }
    }
}

proof fn lemma_apply_record_keeps_count(s: ScanView, record: JsonValue)
    ensures
        apply_record(s, record).lines_read == s.lines_read,
{
}

proof fn lemma_scan_through_prefix(s: ScanView, lines: Seq<Seq<char>>, n: nat)
    requires
        s.lines_read + n == LINE_LIMIT,
        n <= lines.len(),
    ensures
        scan_through(s, lines) == scan_through(s, lines.take(n as int)),
    decreases n,
{
    if !scan_done(s) && lines.len() > 0 {
        assert(n > 0);
        let cut = lines.take(n as int);
        assert(cut[0] == lines[0]);
        if let Some(record) = json_document(lines[0]) {
            lemma_apply_record_keeps_count(
                ScanView { lines_read: s.lines_read + 1, ..s },
                record,
            );
        }
        if let Some(t) = apply_line(s, lines[0]) {
            assert(cut.drop_first() =~= lines.drop_first().take(n - 1));
            lemma_scan_through_prefix(t, lines.drop_first(), (n - 1) as nat);
        }
    }
}

/// Lines after the 400th never matter: reading a transcript from the start
/// gives the same outcome as reading only its first 400 lines.
pub proof fn law_lines_after_limit_ignored(lines: Seq<Seq<char>>)
    requires
        lines.len() >= LINE_LIMIT,
    ensures
        scan_through(scan_start(), lines) == scan_through(scan_start(), lines.take(LINE_LIMIT as int)),
{
    lemma_scan_through_prefix(scan_start(), lines, LINE_LIMIT as nat);
}

/// Feeding one line with [`SessionScan::feed_line`] is the first step of
/// [`scan_through`]: on success the rest of the lines continue from the new
/// state, and a line that is not JSON makes the whole reading fail.
pub proof fn law_feed_line_steps_scan_through(s: ScanView, line: Seq<char>, rest: Seq<Seq<char>>)
    requires
        !scan_done(s),
    ensures
        scan_through(s, seq![line] + rest) == match apply_line(s, line) {
            None => None,
            Some(t) => scan_through(t, rest),
        },
{
    assert((seq![line] + rest)[0] == line);
    assert((seq![line] + rest).drop_first() =~= rest);
}


proof fn lemma_record_kinds_differ()
    ensures
        "session_meta"@ != "response_item"@,
        "other"@ != "user"@,
        role_named("other"@) == MessageRole::Other,
        "message"@.len() > 0,
        "response_item"@.len() > 0,
        "session_meta"@.len() > 0,
{
    reveal_strlit("message");
    reveal_strlit("session_meta");
    reveal_strlit("response_item");
    reveal_strlit("other");
    reveal_strlit("user");
    reveal_strlit("assistant");
    reveal_strlit("system");
    reveal_strlit("tool");
    assert("session_meta"@[0] != "response_item"@[0]);
    assert("other"@.len() != "user"@.len());
    assert("other"@.len() != "assistant"@.len());
    assert("other"@.len() != "system"@.len());
    assert("other"@.len() != "tool"@.len());
}

/// Only a user's message proposes the title. A `response_item` record whose
/// payload's role is not `user` leaves the proposed title as it was; once a
/// title is proposed no later record changes it; and the first user message
/// with text proposes the title that its full text suggests.
pub proof fn law_title_only_from_user_message(s: ScanView, record: JsonValue)
    ensures
        json_str_field(record, "type"@) == Some("response_item"@) && (json_get(record, "payload"@) matches Some(p)
            && json_str_field(p, "role"@) != Some("user"@)) ==> apply_record(s, record).first_prompt
            == s.first_prompt,
        s.first_prompt is Some ==> apply_record(s, record).first_prompt == s.first_prompt,
        ({
            &&& s.first_prompt is None
            &&& json_str_field(record, "type"@) == Some("response_item"@)
            &&& json_get(record, "payload"@) matches Some(p)
            &&& json_str_field(p, "type"@) == Some("message"@)
            &&& json_str_field(p, "role"@) == Some("user"@)
            &&& message_text(json_get(p, "content"@)) matches Some(raw)
        }) ==> apply_record(s, record).first_prompt == title_candidate(
            message_text(json_get(json_get(record, "payload"@)->0, "content"@))->0,
        ),
{
    lemma_record_kinds_differ();
    if let Some(p) = json_get(record, "payload"@) {
        if let Some(r) = json_str_field(p, "role"@) {
            law_role_names(r);
        }
        law_role_names("other"@);
    }
}

/// What a message record adds to the preview: a `response_item` whose
/// payload is a `message` with text adds one message, with the payload's
/// role (`Other` when the role is missing) and the text cut to 600
/// characters, after those already previewed; a payload of another type, or
/// without text, adds nothing.
pub proof fn law_message_adds_preview(s: ScanView, record: JsonValue)
    requires
        json_str_field(record, "type"@) == Some("response_item"@),
        json_get(record, "payload"@) is Some,
    ensures
        ({
            let p = json_get(record, "payload"@)->0;
            if json_str_field(p, "type"@) == Some("message"@) && message_text(json_get(p, "content"@)) is Some {
                let role = match json_str_field(p, "role"@) {
                    Some(r) => role_named(r),
                    None => MessageRole::Other,
                };
                apply_record(s, record).preview == s.preview.push(
                    (role, truncated(message_text(json_get(p, "content"@))->0, 600)),
                )
            } else {
                apply_record(s, record).preview == s.preview
            }
        }),
        apply_record(s, record).session_id == s.session_id,
        apply_record(s, record).created_at == s.created_at,
{
    lemma_record_kinds_differ();
    law_role_names("other"@);
}

/// What a `session_meta` record sets: the id and the creation time when
/// present and readable, and the instructions, working directory and
/// originator as the payload gives them; it previews nothing.
pub proof fn law_session_meta_sets_fields(s: ScanView, record: JsonValue)
    requires
        json_str_field(record, "type"@) == Some("session_meta"@),
        json_get(record, "payload"@) is Some,
    ensures
        ({
            let p = json_get(record, "payload"@)->0;
            let t = apply_record(s, record);
            &&& json_str_field(p, "id"@) matches Some(id) ==> t.session_id == Some(id)
            &&& json_str_field(p, "id"@) is None ==> t.session_id == s.session_id
            &&& (json_str_field(p, "timestamp"@) matches Some(ts) && rfc3339_instant(ts) is Some)
                ==> t.created_at == rfc3339_instant(json_str_field(p, "timestamp"@)->0)
            &&& t.instructions == json_str_field(p, "instructions"@)
            &&& t.cwd == json_str_field(p, "cwd"@)
            &&& t.originator == json_str_field(p, "originator"@)
            &&& t.preview == s.preview
            &&& t.first_prompt == s.first_prompt
        }),
{
    lemma_record_kinds_differ();
}

/// What one content part contributes: a part of type `input_text`,
/// `output_text` or `text` contributes its text member; a part of type
/// `tool_use` or `tool_result` contributes its name in brackets; any other
/// part contributes nothing.
pub proof fn law_content_parts(item: JsonValue)
    ensures
        ({
            let kind = json_str_field(item, "type"@);
            kind == Some("input_text"@) || kind == Some("output_text"@) || kind == Some("text"@)
        }) ==> content_piece(item) == json_str_field(item, "text"@),
        ({
            let kind = json_str_field(item, "type"@);
            kind == Some("tool_use"@) || kind == Some("tool_result"@)
        }) ==> content_piece(item) == match json_str_field(item, "name"@) {
            Some(n) => Some(seq!['['] + n + seq![']']),
            None => None,
        },
        ({
            let kind = text_or_empty(json_str_field(item, "type"@));
            kind != "input_text"@ && kind != "output_text"@ && kind != "text"@ && kind
                != "tool_use"@ && kind != "tool_result"@
        }) ==> content_piece(item) is None,
{
    reveal_strlit("input_text");
    reveal_strlit("output_text");
    reveal_strlit("text");
    reveal_strlit("tool_use");
    reveal_strlit("tool_result");
    assert("tool_use"@ != "input_text"@ && "tool_use"@ != "output_text"@ && "tool_use"@
        != "text"@) by {
        assert("tool_use"@[0] != "input_text"@[0]);
        assert("tool_use"@[0] != "output_text"@[0]);
        assert("tool_use"@.len() != "text"@.len());
    }
    assert("tool_result"@ != "input_text"@ && "tool_result"@ != "output_text"@ && "tool_result"@
        != "text"@) by {
        assert("tool_result"@[0] != "input_text"@[0]);
        assert("tool_result"@[0] != "output_text"@[0]);
        assert("tool_result"@.len() != "text"@.len());
    }
}

/// Content that is a single part gives that part's contribution as the
/// message text (none when it is empty); parts are joined by a blank line in
/// their order; content that is not an array gives its `text` member.
pub proof fn law_message_text(content: JsonValue, items: Vec<JsonValue>, item: JsonValue)
    ensures
        content == JsonValue::Array(items) && items@ == seq![item] ==> message_text(Some(content))
            == match content_piece(item) {
            Some(t) => if t.len() > 0 {
                Some(t)
            } else {
                None
            },
            None => None,
        },
        items@.len() > 0 && content_piece(items@.last()) is Some ==> joined_pieces(items@) == {
            let t = content_piece(items@.last())->0;
            if joined_pieces(items@.drop_last()).len() == 0 {
                t
            } else {
                joined_pieces(items@.drop_last()) + seq!['\n', '\n'] + t
            }
        },
        !(content is Array) ==> message_text(Some(content)) == json_str_field(content, "text"@),
        message_text(None) is None,
{
    if content == JsonValue::Array(items) && items@ == seq![item] {
        assert(items@.drop_last() =~= Seq::<JsonValue>::empty());
        assert(items@.last() == item);
        assert(joined_pieces(items@.drop_last()).len() == 0);
    }
}


/// The limits of reading a transcript: 400 lines, 16 previewed messages of
/// at most 600 characters, and titles of at most 80 characters.
pub proof fn law_reading_limits()
    ensures
        LINE_LIMIT == 400,
        PREVIEW_LIMIT == 16,
        PREVIEW_CHAR_LIMIT == 600,
        crate::title::TITLE_CHAR_LIMIT == 80,
{
}


/// Without a proposed title, the session's title comes from the earliest
/// previewed message whose text suggests one: when messages before index `i`
/// suggest none and message `i` suggests `t`, the title is `t`; when no
/// message suggests one, there is none.
pub proof fn law_fallback_title(preview: Seq<(MessageRole, Seq<char>)>, i: int)
    ensures
        0 <= i < preview.len() && (forall|j: int| 0 <= j < i ==> #[trigger] title_candidate(
            preview[j].1,
        ) is None) && title_candidate(preview[i].1) is Some ==> first_preview_title(preview)
            == title_candidate(preview[i].1),
        (forall|j: int| 0 <= j < preview.len() ==> #[trigger] title_candidate(preview[j].1) is None)
            ==> first_preview_title(preview) is None,
    decreases preview.len(),
{
    if preview.len() > 0 {
        let rest = preview.drop_first();
        assert forall|j: int| 0 <= j < rest.len() implies rest[j] == preview[j + 1] by {}
        if 0 < i < preview.len() && (forall|j: int| 0 <= j < i ==> #[trigger] title_candidate(
            preview[j].1,
        ) is None) {
            assert(title_candidate(preview[0].1) is None);
            assert forall|j: int| 0 <= j < i - 1 implies #[trigger] title_candidate(rest[j].1)
                is None by {
                assert(rest[j] == preview[j + 1]);
                assert(title_candidate(preview[j + 1].1) is None);
            }
        }
        if forall|j: int| 0 <= j < preview.len() ==> #[trigger] title_candidate(preview[j].1) is None {
            assert(title_candidate(preview[0].1) is None);
            assert forall|j: int| 0 <= j < rest.len() implies #[trigger] title_candidate(rest[j].1)
                is None by {
                assert(rest[j] == preview[j + 1]);
                assert(title_candidate(preview[j + 1].1) is None);
            }
        }
        law_fallback_title(rest, i - 1);
    }
}

} // verus!
