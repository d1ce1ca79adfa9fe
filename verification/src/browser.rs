//! The state of the session browser window and the decisions it makes:
//! which sessions the search shows, which one is selected, and the life of a
//! request to resume a session in a terminal.
use vstd::prelude::*;

use crate::session::{entry_matches, SessionEntry};
use crate::text::{blank, chars_of, decimal, decimal_chars, is_blank, string_of};

verus! {

/// Where a request to resume a session stands.
#[derive(Debug)]
pub enum ResumeStatus {
    /// The terminal is being launched for the session with this id.
    InFlight(String),
    /// The session with this id was opened in a new terminal.
    Success(String),
    /// Resuming the session with this id failed, for the given reason.
    Failure(String, String),
}

/// [`ResumeStatus`] with its texts as sequences.
pub enum StatusView {
    InFlight(Seq<char>),
    Success(Seq<char>),
    Failure(Seq<char>, Seq<char>),
}

/// The text of a [`ResumeStatus`].
pub open spec fn status_view(s: ResumeStatus) -> StatusView {
    match s {
        ResumeStatus::InFlight(id) => StatusView::InFlight(id@),
        ResumeStatus::Success(id) => StatusView::Success(id@),
        ResumeStatus::Failure(id, reason) => StatusView::Failure(id@, reason@),
    }
}

/// What the launcher of a resume request reports back.
#[derive(Debug)]
pub enum ResumeReport {
    /// The launch for the session with this id finished, with the error's
    /// text if it failed.
    Finished(String, Result<(), String>),
    /// The launcher went away without reporting.
    Disconnected,
}

/// How a status banner is coloured.
#[derive(Clone, Copy, Debug, PartialEq, Eq, Structural)]
pub enum BannerTone {
    Info,
    Success,
    Error,
}

/// The browser's state, with texts as sequences.
pub struct BrowserView {
    pub sessions: Seq<SessionEntry>,
    pub filter: Seq<char>,
    pub hovered: Option<usize>,
    pub selected: Option<usize>,
    pub load_error: Option<Seq<char>>,
    pub pending: Option<Seq<char>>,
    pub status: Option<StatusView>,
}

/// The state of the session browser.
pub struct SessionBrowser {
    sessions: Vec<SessionEntry>,
    filter: String,
    hovered_session: Option<usize>,
    selected_session: Option<usize>,
    load_error: Option<String>,
    resume_job: Option<String>,
    resume_status: Option<ResumeStatus>,
}

impl View for SessionBrowser {
    type V = BrowserView;

    closed spec fn view(&self) -> BrowserView {
        BrowserView {
            sessions: self.sessions@,
            filter: self.filter@,
            hovered: self.hovered_session,
            selected: self.selected_session,
            load_error: match self.load_error {
                Some(e) => Some(e@),
                None => None,
            },
            pending: match self.resume_job {
                Some(id) => Some(id@),
                None => None,
            },
            status: match self.resume_status {
                Some(s) => Some(status_view(s)),
                None => None,
            },
        }
    }
}

/// The indices, ascending, of the first `n` sessions that match `filter`.
pub open spec fn matching_indices(s: Seq<SessionEntry>, filter: Seq<char>, n: nat) -> Seq<usize>
    decreases n,
{
    if n == 0 {
        Seq::empty()
    } else {
        let before = matching_indices(s, filter, (n - 1) as nat);
        if entry_matches(s[n - 1], filter) {
            before.push((n - 1) as usize)
        } else {
            before
        }
    }
}

/// The browser as it opens: the loaded sessions (none, with the reason shown,
/// when loading failed), an empty filter, nothing hovered or selected and no
/// resume request.
pub open spec fn browser_start(sessions: Seq<SessionEntry>, load_error: Option<Seq<char>>) -> BrowserView {
    BrowserView {
        sessions,
        filter: Seq::empty(),
        hovered: None,
        selected: None,
        load_error,
        pending: None,
        status: None,
    }
}

/// A request to resume session `idx`: ignored while a request for the same
/// session is pending; otherwise it becomes the pending request (replacing
/// any other) and the status shows it in flight. The second component is the
/// id to launch, if any.
pub open spec fn resume_request(v: BrowserView, idx: int) -> (BrowserView, Option<Seq<char>>) {
    let id = v.sessions[idx].id@;
    if v.pending == Some(id) {
        (v, None)
    } else {
        (BrowserView { pending: Some(id), status: Some(StatusView::InFlight(id)), ..v }, Some(id))
    }
}

/// What a launcher's report does: nothing without a pending request;
/// otherwise the request is over and the status tells how it ended.
pub open spec fn resume_reported(v: BrowserView, report: ResumeReport) -> BrowserView {
    match v.pending {
        None => v,
        Some(pending) => match report {
            ResumeReport::Finished(id, Ok(())) => BrowserView {
                pending: None,
                status: Some(StatusView::Success(id@)),
                ..v
            },
            ResumeReport::Finished(id, Err(reason)) => BrowserView {
                pending: None,
                status: Some(StatusView::Failure(id@, reason@)),
                ..v
            },
            ResumeReport::Disconnected => BrowserView {
                pending: None,
                status: Some(StatusView::Failure(pending, "Resume task ended unexpectedly"@)),
                ..v
            },
        },
    }
}

/// The text and tone of the status banner for a resume status.
pub open spec fn banner_of(s: StatusView) -> (Seq<char>, BannerTone) {
    match s {
        StatusView::InFlight(id) => ("Launching `codex resume "@ + id + "`..."@, BannerTone::Info),
        StatusView::Success(id) => (
            "Opened session "@ + id + " in a new terminal window."@,
            BannerTone::Success,
        ),
        StatusView::Failure(id, reason) => (
            "Failed to resume "@ + id + ": "@ + reason,
            BannerTone::Error,
        ),
    }
}

/// The count line above the list: `N matching session`, with an `s` unless
/// N is 1.
pub open spec fn matching_summary_text(count: nat) -> Seq<char> {
    decimal(count) + " matching session"@ + if count == 1 {
        Seq::empty()
    } else {
        seq!['s']
    }
}

fn extend_with(dst: &mut Vec<char>, s: &str)
    ensures
        final(dst)@ == old(dst)@ + s@,
{
    let v = chars_of(s);
    let mut k: usize = 0;
    while k < v.len()
        invariant
            k <= v.len(),
            v@ == s@,
            dst@ == old(dst)@ + v@.take(k as int),
        decreases v.len() - k,
    {
        dst.push(v[k]);
        k += 1;
    }
    assert(v@.take(v.len() as int) =~= v@);
}

/// The count line above the session list.
pub fn matching_summary(count: u64) -> (r: String)
    ensures
        r@ == matching_summary_text(count as nat),
{
    let mut v = decimal_chars(count);
    extend_with(&mut v, " matching session");
    if count != 1 {
        v.push('s');
    }
    string_of(&v)
}

impl SessionBrowser {
    /// Opens the browser on the result of loading the sessions; a loading
    /// failure is shown as `Failed to load sessions: ` and its reason.
    pub fn new(loaded: Result<Vec<SessionEntry>, String>) -> (r: SessionBrowser)
        ensures
            r@ == match loaded {
                Ok(list) => browser_start(list@, None),
                Err(reason) => browser_start(
                    Seq::empty(),
                    Some("Failed to load sessions: "@ + reason@),
                ),
            },
    {
        let (sessions, load_error) = match loaded {
            Ok(list) => (list, None),
            Err(reason) => {
                let mut v: Vec<char> = Vec::new();
                extend_with(&mut v, "Failed to load sessions: ");
                extend_with(&mut v, reason.as_str());
                (Vec::new(), Some(string_of(&v)))
            },
        };
        SessionBrowser {
            sessions,
            filter: String::new(),
            hovered_session: None,
            selected_session: None,
            load_error,
            resume_job: None,
            resume_status: None,
        }
    }

    /// All loaded sessions, newest first as loaded.
    pub fn sessions(&self) -> (r: &Vec<SessionEntry>)
        ensures
            r@ == self@.sessions,
    {
        &self.sessions
    }

    /// The current search filter.
    pub fn filter(&self) -> (r: &str)
        ensures
            r@ == self@.filter,
    {
        self.filter.as_str()
    }

    /// The session under the pointer, if any.
    pub fn hovered_session(&self) -> (r: Option<usize>)
        ensures
            r == self@.hovered,
    {
        self.hovered_session
    }

    /// The selected session, if any.
    pub fn selected_session(&self) -> (r: Option<usize>)
        ensures
            r == self@.selected,
    {
        self.selected_session
    }

    /// Why loading the sessions failed, if it did.
    pub fn load_error(&self) -> (r: Option<&String>)
        ensures
            r matches Some(e) ==> self@.load_error == Some(e@),
            r is None ==> self@.load_error is None,
    {
        match &self.load_error {
            Some(e) => Some(e),
            None => None,
        }
    }

    /// The indices, ascending, of the sessions that match the filter.
    pub fn filtered_indices(&self) -> (r: Vec<usize>)
        ensures
            r@ == matching_indices(self@.sessions, self@.filter, self@.sessions.len()),
    {
        let mut r: Vec<usize> = Vec::new();
        let mut i: usize = 0;
        while i < self.sessions.len()
            invariant
                i <= self.sessions.len(),
                r@ == matching_indices(self.sessions@, self.filter@, i as nat),
            decreases self.sessions.len() - i,
        {
            if self.sessions[i].matches_filter(self.filter.as_str()) {
                r.push(i);
            }
            i += 1;
        }
        r
    }

    /// The session whose preview is shown: the hovered one, else the
    /// selected one.
    pub fn preview_idx(&self) -> (r: Option<usize>)
        ensures
            r == match self@.hovered {
                Some(h) => Some(h),
                None => self@.selected,
            },
    {
        match self.hovered_session {
            Some(h) => Some(h),
            None => self.selected_session,
        }
    }

    /// Whether a session is selected, so that it can be opened.
    pub fn can_open_selected_session(&self) -> (r: bool)
        ensures
            r == self@.selected is Some,
    {
        self.selected_session.is_some()
    }

    /// Takes a new filter text; a filter that is not blank clears the hover.
    pub fn set_filter(&mut self, value: String)
        ensures
            final(self)@ == (BrowserView {
                filter: value@,
                hovered: if blank(value@) { old(self)@.hovered } else { None },
                ..old(self)@
            }),
    {
        let clears = !is_blank(value.as_str());
        self.filter = value;
        if clears {
            self.hovered_session = None;
        }
    }

    /// Empties the filter and clears the hover.
    pub fn clear_filter(&mut self)
        ensures
            final(self)@ == (BrowserView { filter: Seq::empty(), hovered: None, ..old(self)@ }),
    {
        self.filter = String::new();
        self.hovered_session = None;
    }

    /// The pointer entered session `idx`; tells whether the hover changed.
    pub fn hover_session(&mut self, idx: usize) -> (changed: bool)
        ensures
            changed == (old(self)@.hovered != Some(idx)),
            final(self)@ == (BrowserView { hovered: Some(idx), ..old(self)@ }),
    {
        if self.hovered_session != Some(idx) {
            self.hovered_session = Some(idx);
            true
        } else {
            false
        }
    }

    /// Session `idx` was clicked: it becomes hovered and selected, and is
    /// asked to be resumed as by [`SessionBrowser::trigger_resume`]; returns
    /// the id to launch, or `None` when a request for that session is already
    /// pending.
    pub fn select_session(&mut self, idx: usize) -> (r: Option<String>)
        requires
            idx < old(self)@.sessions.len(),
        ensures
            (final(self)@, match r {
                Some(id) => Some(id@),
                None => None,
            }) == resume_request(
                BrowserView { hovered: Some(idx), selected: Some(idx), ..old(self)@ },
                idx as int,
            ),
    {
        self.hovered_session = Some(idx);
        self.selected_session = Some(idx);
        self.trigger_resume(idx)
    }

    /// Asks to resume session `idx`; returns the id to launch, or `None` when
    /// a request for that session is already pending.
    pub fn trigger_resume(&mut self, idx: usize) -> (r: Option<String>)
        requires
            idx < old(self)@.sessions.len(),
        ensures
            (final(self)@, match r {
                Some(id) => Some(id@),
                None => None,
            }) == resume_request(old(self)@, idx as int),
    {
        let id = self.sessions[idx].id.clone();
        if let Some(pending) = &self.resume_job {
            if chars_equal_str(pending.as_str(), id.as_str()) {
                return None;
            }
        }
        self.resume_job = Some(id.clone());
        self.resume_status = Some(ResumeStatus::InFlight(id.clone()));
        Some(id)
    }

    /// Whether a resume request is pending.
    pub fn resume_pending(&self) -> (r: bool)
        ensures
            r == self@.pending is Some,
    {
        self.resume_job.is_some()
    }

    /// Takes the launcher's report on the pending request.
    pub fn resume_reported(&mut self, report: ResumeReport)
        ensures
            final(self)@ == resume_reported(old(self)@, report),
    {
        let pending = match &self.resume_job {
            Some(p) => p.clone(),
            None => return,
        };
        match report {
            ResumeReport::Finished(id, Ok(())) => {
                self.resume_job = None;
                self.resume_status = Some(ResumeStatus::Success(id));
            },
            ResumeReport::Finished(id, Err(reason)) => {
                self.resume_job = None;
                self.resume_status = Some(ResumeStatus::Failure(id, reason));
            },
            ResumeReport::Disconnected => {
                let reason = string_of(&chars_of("Resume task ended unexpectedly"));
                self.resume_status = Some(ResumeStatus::Failure(pending, reason));
                self.resume_job = None;
            },
        }
    }

    /// The status banner's text and tone, when there is a resume status.
    pub fn status_banner(&self) -> (r: Option<(String, BannerTone)>)
        ensures
            match self@.status {
                None => r is None,
                Some(s) => r matches Some((text, tone)) && (text@, tone) == banner_of(s),
            },
    {
        match &self.resume_status {
            None => None,
            Some(ResumeStatus::InFlight(id)) => {
                let mut v: Vec<char> = Vec::new();
                extend_with(&mut v, "Launching `codex resume ");
                extend_with(&mut v, id.as_str());
                extend_with(&mut v, "`...");
                Some((string_of(&v), BannerTone::Info))
            },
            Some(ResumeStatus::Success(id)) => {
                let mut v: Vec<char> = Vec::new();
                extend_with(&mut v, "Opened session ");
                extend_with(&mut v, id.as_str());
                extend_with(&mut v, " in a new terminal window.");
                Some((string_of(&v), BannerTone::Success))
            },
            Some(ResumeStatus::Failure(id, reason)) => {
                let mut v: Vec<char> = Vec::new();
                extend_with(&mut v, "Failed to resume ");
                extend_with(&mut v, id.as_str());
                extend_with(&mut v, ": ");
                extend_with(&mut v, reason.as_str());
                Some((string_of(&v), BannerTone::Error))
            },
        }
    }
}

/// The platform whose terminal a resumed session opens in.
#[derive(Clone, Copy, Debug, PartialEq, Eq, Structural)]
pub enum LaunchPlatform {
    /// Terminal.app, driven by an AppleScript run with `osascript -e`.
    MacOs,
    /// A new `cmd.exe` window, started by `powershell -NoProfile -Command`.
    Windows,
    /// A background `codex resume` run with `sh -c`.
    Other,
}

/// The script that launches `codex resume <id>` on a platform.
pub open spec fn resume_command_text(platform: LaunchPlatform, id: Seq<char>) -> Seq<char> {
    match platform {
        LaunchPlatform::MacOs => "tell application \"Terminal\"\nactivate\ndo script \"codex resume "@ + id
            + "\"\nend tell"@,
        LaunchPlatform::Windows => "Start-Process cmd -ArgumentList '/K codex resume "@ + id + "'"@,
        LaunchPlatform::Other => "(codex resume "@ + id + " &)"@,
    }
}

/// The script that launches `codex resume <session_id>` on `platform`.
pub fn resume_command(platform: LaunchPlatform, session_id: &str) -> (r: String)
    ensures
        r@ == resume_command_text(platform, session_id@),
{
    let mut v: Vec<char> = Vec::new();
    match platform {
        LaunchPlatform::MacOs => {
            extend_with(&mut v, "tell application \"Terminal\"\nactivate\ndo script \"codex resume ");
            extend_with(&mut v, session_id);
            extend_with(&mut v, "\"\nend tell");
        },
        LaunchPlatform::Windows => {
            extend_with(&mut v, "Start-Process cmd -ArgumentList '/K codex resume ");
            extend_with(&mut v, session_id);
            extend_with(&mut v, "'");
        },
        LaunchPlatform::Other => {
            extend_with(&mut v, "(codex resume ");
            extend_with(&mut v, session_id);
            extend_with(&mut v, " &)");
        },
    }
    string_of(&v)
}

fn chars_equal_str(a: &str, b: &str) -> (r: bool)
    ensures
        r == (a@ == b@),
{
    crate::text::chars_equal(&chars_of(a), &chars_of(b))
}


/// The search lists exactly the matching sessions, each once, in list order:
/// the indices ascend, and an index is listed exactly when it is in range and
/// its session matches the filter.
pub proof fn law_filtered_indices_exact(s: Seq<SessionEntry>, filter: Seq<char>, n: nat)
    requires
        n <= s.len() <= usize::MAX,
    ensures
        forall|a: int, b: int|
            0 <= a < b < matching_indices(s, filter, n).len() ==> #[trigger] matching_indices(
                s,
                filter,
                n,
            )[a] < #[trigger] matching_indices(s, filter, n)[b],
        forall|i: int|
            0 <= i < matching_indices(s, filter, n).len() ==> (#[trigger] matching_indices(
                s,
                filter,
                n,
            )[i] as int) < n && entry_matches(s[matching_indices(s, filter, n)[i] as int], filter),
        forall|x: usize|
            x < n && entry_matches(s[x as int], filter) ==> #[trigger] matching_indices(
                s,
                filter,
                n,
            ).contains(x),
    decreases n,
{
    if n > 0 {
        law_filtered_indices_exact(s, filter, (n - 1) as nat);
        let before = matching_indices(s, filter, (n - 1) as nat);
        let now = matching_indices(s, filter, n);
        assert forall|i: int| 0 <= i < now.len() implies (#[trigger] now[i] as int) < n
            && entry_matches(s[now[i] as int], filter) by {
            if i < before.len() {
                assert(now[i] == before[i]);
            }
        }
        assert forall|a: int, b: int| 0 <= a < b < now.len() implies #[trigger] now[a]
            < #[trigger] now[b] by {
            assert(now[a] == before[a]);
            if b < before.len() {
                assert(now[b] == before[b]);
            }
        }
        assert forall|x: usize| x < n && entry_matches(s[x as int], filter) implies #[trigger] now.contains(
            x,
        ) by {
            if x < n - 1 {
                assert(before.contains(x));
                let k = choose|k: int| 0 <= k < before.len() && before[k] == x;
                assert(now[k] == x);
            } else {
                assert(now[now.len() - 1] == x);
            }
        }
    }
}

/// A blank filter lists every session, in order.
pub proof fn law_blank_filter_lists_all(s: Seq<SessionEntry>, filter: Seq<char>, n: nat)
    requires
        blank(filter),
        n <= s.len() <= usize::MAX,
    ensures
        matching_indices(s, filter, n) == Seq::new(n, |i: int| i as usize),
    decreases n,
{
    if n > 0 {
        law_blank_filter_lists_all(s, filter, (n - 1) as nat);
        assert(Seq::new(n, |i: int| i as usize) =~= Seq::new((n - 1) as nat, |i: int| i as usize).push(
            (n - 1) as usize,
        ));
    } else {
        assert(Seq::new(0, |i: int| i as usize) =~= Seq::<usize>::empty());
    }
}

/// Asking again to resume the session whose request is pending changes
/// nothing and launches nothing.
pub proof fn law_resume_request_once(v: BrowserView, idx: int)
    requires
        0 <= idx < v.sessions.len(),
    ensures
        resume_request(resume_request(v, idx).0, idx) == (resume_request(v, idx).0, None::<Seq<char>>),
        resume_request(v, idx).0.pending == Some(v.sessions[idx].id@),
{
}

/// A report always ends the pending request, and without a pending request
/// a report changes nothing.
pub proof fn law_report_ends_request(v: BrowserView, report: ResumeReport)
    ensures
        resume_reported(v, report).pending is None,
        v.pending is None ==> resume_reported(v, report) == v,
{
}


/// The status banner's wording and tone for each resume status.
pub proof fn law_banner_texts(id: Seq<char>, reason: Seq<char>)
    ensures
        banner_of(StatusView::InFlight(id)) == ("Launching `codex resume "@ + id + "`..."@, BannerTone::Info),
        banner_of(StatusView::Success(id)) == (
            "Opened session "@ + id + " in a new terminal window."@,
            BannerTone::Success,
        ),
        banner_of(StatusView::Failure(id, reason)) == (
            "Failed to resume "@ + id + ": "@ + reason,
            BannerTone::Error,
        ),
{
}

/// The count line: the decimal count and `matching session`, plural unless
/// the count is 1.
pub proof fn law_matching_summary(count: nat)
    ensures
        count == 1 ==> matching_summary_text(count) == decimal(count) + " matching session"@,
        count != 1 ==> matching_summary_text(count) == decimal(count) + " matching sessions"@,
{
    reveal_strlit(" matching session");
    reveal_strlit(" matching sessions");
    assert(" matching session"@ + seq!['s'] =~= " matching sessions"@);
    assert(" matching session"@ + Seq::<char>::empty() =~= " matching session"@);
}

/// The launch script runs `codex resume` with the session's id on every
/// platform: in Terminal.app on macOS, in a new `cmd` window on Windows, and
/// in the background elsewhere.
pub proof fn law_resume_commands(id: Seq<char>)
    ensures
        resume_command_text(LaunchPlatform::MacOs, id)
            == "tell application \"Terminal\"\nactivate\ndo script \"codex resume "@ + id
            + "\"\nend tell"@,
        resume_command_text(LaunchPlatform::Windows, id)
            == "Start-Process cmd -ArgumentList '/K codex resume "@ + id + "'"@,
        resume_command_text(LaunchPlatform::Other, id) == "(codex resume "@ + id + " &)"@,
{
}

} // verus!
