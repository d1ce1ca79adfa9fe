//! A recorded session, as the browser lists and searches it.
use vstd::prelude::*;

use crate::role::{role_label, MessageRole};
use crate::text::{
    ascii_lowercase, law_ascii_lowercase_keeps_contains, law_contains_non_blank,
    law_contains_transitive,
    blank, chars_of, contains_chars, contains_text, is_blank, string_of, to_lowercase,
    truncate_chars, truncated, unicode_lowercase,
};
use crate::time::{earlier, is_earlier, Timestamp};
use crate::title::TITLE_CHAR_LIMIT;

verus! {

/// One message of a session's transcript, as previewed.
#[derive(Debug)]
pub struct PreviewMessage {
    pub role: MessageRole,
    pub text: String,
}

/// A recorded session.
#[derive(Debug)]
pub struct SessionEntry {
    pub id: String,
    pub file_path: String,
    pub created_at: Timestamp,
    pub originator: Option<String>,
    pub instructions: Option<String>,
    pub cwd: Option<String>,
    pub title: Option<String>,
    pub preview_items: Vec<PreviewMessage>,
}

/// The text of an optional string.
pub open spec fn opt_text(o: Option<String>) -> Option<Seq<char>> {
    match o {
        Some(s) => Some(s@),
        None => None,
    }
}

/// The previewed messages as pairs of role and text.
pub open spec fn preview_view(items: Seq<PreviewMessage>) -> Seq<(MessageRole, Seq<char>)> {
    items.map_values(|m: PreviewMessage| (m.role, m.text@))
}

/// Whether `needle` occurs in the lower-cased form of `text`.
pub open spec fn text_matches(text: Seq<char>, needle: Seq<char>) -> bool {
    contains_text(unicode_lowercase(text), needle)
}

/// Whether an optional field is present and matches `needle`.
pub open spec fn field_matches(field: Option<String>, needle: Seq<char>) -> bool {
    match field {
        Some(s) => text_matches(s@, needle),
        None => false,
    }
}

/// Whether a session matches a search filter: every session matches a blank
/// filter; otherwise the lower-cased filter must occur in the lower-cased id,
/// title, working directory, originator or text of some previewed message.
pub open spec fn entry_matches(e: SessionEntry, filter: Seq<char>) -> bool {
    blank(filter) || {
        let needle = unicode_lowercase(filter);
        ||| text_matches(e.id@, needle)
        ||| field_matches(e.title, needle)
        ||| field_matches(e.cwd, needle)
        ||| field_matches(e.originator, needle)
        ||| exists|i: int|
            0 <= i < e.preview_items.len() && text_matches(
                #[trigger] e.preview_items@[i].text@,
                needle,
            )
    }
}

/// The title shown for a session: its own title; else the label of its first
/// previewed message, a space and that message's text, cut to 80 characters;
/// else its id.
pub open spec fn entry_display_title(e: SessionEntry) -> Seq<char> {
    match e.title {
        Some(t) => t@,
        None => if e.preview_items.len() > 0 {
            let m = e.preview_items@[0];
            truncated(role_label(m.role) + seq![' '] + m.text@, TITLE_CHAR_LIMIT as nat)
        } else {
            e.id@
        },
    }
}

fn lowercase_contains(text: &str, needle: &Vec<char>) -> (r: bool)
    ensures
        r == text_matches(text@, needle@),
{
    let lower = to_lowercase(text);
    contains_chars(&chars_of(lower.as_str()), needle)
}

fn optional_contains(field: &Option<String>, needle: &Vec<char>) -> (r: bool)
    ensures
        r == field_matches(*field, needle@),
{
    match field {
        Some(s) => lowercase_contains(s.as_str(), needle),
        None => false,
    }
}

impl SessionEntry {
    /// Whether this session matches the search filter.
    pub fn matches_filter(&self, filter: &str) -> (r: bool)
        ensures
            r == entry_matches(*self, filter@),
    {
        if is_blank(filter) {
            return true;
        }
        let needle_text = to_lowercase(filter);
        let needle = chars_of(needle_text.as_str());
        if lowercase_contains(self.id.as_str(), &needle) || optional_contains(&self.title, &needle)
            || optional_contains(&self.cwd, &needle) || optional_contains(
            &self.originator,
            &needle,
        ) {
            return true;
        }
        let mut i: usize = 0;
        while i < self.preview_items.len()
            invariant
                i <= self.preview_items.len(),
                needle@ == unicode_lowercase(filter@),
                forall|k: int|
                    0 <= k < i ==> !text_matches(#[trigger] self.preview_items@[k].text@, needle@),
            decreases self.preview_items.len() - i,
        {
            if lowercase_contains(self.preview_items[i].text.as_str(), &needle) {
                return true;
            }
            i += 1;
        }
        false
    }

    /// The title shown for this session.
    pub fn display_title(&self) -> (r: String)
        ensures
            r@ == entry_display_title(*self),
    {
        match &self.title {
            Some(t) => t.clone(),
            None => if self.preview_items.len() > 0 {
                let item = &self.preview_items[0];
                let mut v = chars_of(item.role.label());
                v.push(' ');
                let text = chars_of(item.text.as_str());
                let mut k: usize = 0;
                let ghost head = v@;
                while k < text.len()
                    invariant
                        k <= text.len(),
                        v@ == head + text@.take(k as int),
                    decreases text.len() - k,
                {
                    v.push(text[k]);
                    k += 1;
                }
                assert(text@.take(text.len() as int) =~= text@);
                string_of(&truncate_chars(&v, TITLE_CHAR_LIMIT))
            } else {
                self.id.clone()
            },
        }
    }
}


/// Whether the sessions are ordered newest first: no session was created
/// before one that follows it.
pub open spec fn newest_first(s: Seq<SessionEntry>) -> bool {
    forall|i: int, j: int|
        0 <= i < j < s.len() ==> !earlier(#[trigger] s[i].created_at, #[trigger] s[j].created_at)
}

/// The sessions of `s` created at instant `t`, in their order in `s`.
pub open spec fn created_at(s: Seq<SessionEntry>, t: Timestamp) -> Seq<SessionEntry> {
    s.filter(|e: SessionEntry| e.created_at == t)
}

proof fn lemma_insert_in_order(out: Seq<SessionEntry>, p: int, x: SessionEntry)
    requires
        0 <= p <= out.len(),
        newest_first(out),
        forall|q: int| 0 <= q < p ==> !earlier(#[trigger] out[q].created_at, x.created_at),
        p < out.len() ==> earlier(out[p].created_at, x.created_at),
    ensures
        newest_first(out.insert(p, x)),
        forall|t: Timestamp|
            #[trigger] created_at(out.insert(p, x), t) == if t == x.created_at {
                created_at(out, t).push(x)
            } else {
                created_at(out, t)
            },
        out.insert(p, x).to_multiset() == out.to_multiset().insert(x),
{
    let r = out.insert(p, x);
    out.insert_ensures(p, x);
    assert forall|q: int| p <= q < out.len() implies earlier(
        #[trigger] out[q].created_at,
        x.created_at,
    ) by {
        if q > p {
            assert(!earlier(out[p].created_at, out[q].created_at));
        }
    }
    assert forall|i: int, j: int| 0 <= i < j < r.len() implies !earlier(
        #[trigger] r[i].created_at,
        #[trigger] r[j].created_at,
    ) by {
        if j < p {
            assert(!earlier(out[i].created_at, out[j].created_at));
        } else if j == p {
        } else if i < p {
            assert(r[j] == out[j - 1]);
        } else if i == p {
            assert(r[j] == out[j - 1]);
        } else {
            assert(r[i] == out[i - 1] && r[j] == out[j - 1]);
            assert(!earlier(out[i - 1].created_at, out[j - 1].created_at));
        }
    }
    let a = out.subrange(0, p);
    let b = out.subrange(p, out.len() as int);
    assert(out =~= a + b);
    assert(r =~= a + seq![x] + b);
    assert forall|t: Timestamp| #[trigger] created_at(r, t) == if t == x.created_at {
        created_at(out, t).push(x)
    } else {
        created_at(out, t)
    } by {
        let pred = |e: SessionEntry| e.created_at == t;
        Seq::filter_distributes_over_add(a + seq![x], b, pred);
        Seq::filter_distributes_over_add(a, seq![x], pred);
        Seq::filter_distributes_over_add(a, b, pred);
        reveal_with_fuel(Seq::filter, 2);
        assert(seq![x].drop_last() =~= Seq::<SessionEntry>::empty());
        if t == x.created_at {
            assert(b.filter(pred).len() == 0) by {
                assert forall|q: int| 0 <= q < b.len() implies !pred(#[trigger] b[q]) by {
                    assert(b[q] == out[q + p]);
                    assert(earlier(out[q + p].created_at, x.created_at));
                }
                b.lemma_all_neg_filter_empty(pred);
            }
            assert(b.filter(pred) =~= Seq::<SessionEntry>::empty());
        }
    }
    assert(r.remove(p) =~= out);
    r.to_multiset_ensures();
    assert(r.to_multiset() =~= out.to_multiset().insert(x)) by {
        assert(r.to_multiset().remove(x) == out.to_multiset());
        assert(r.to_multiset().count(x) > 0) by {
            assert(r[p] == x);
            assert(r.contains(x));
        }
    }
}

/// Orders sessions newest first. Sessions created at the same instant keep
/// their relative order (the sort is stable), and no session is added or lost.
pub fn sort_newest_first(sessions: Vec<SessionEntry>) -> (r: Vec<SessionEntry>)
    ensures
        newest_first(r@),
        forall|t: Timestamp| #[trigger] created_at(r@, t) == created_at(sessions@, t),
        r@.to_multiset() == sessions@.to_multiset(),
{
    let ghost orig = sessions@;
    let mut input = sessions;
    let mut out: Vec<SessionEntry> = Vec::new();
    let ghost mut k: int = 0;
    proof {
        assert(orig.take(0) =~= Seq::<SessionEntry>::empty());
        assert(orig.skip(0) =~= orig);
        reveal_with_fuel(Seq::filter, 1);
        Seq::<SessionEntry>::empty().to_multiset_ensures();
    }
    while input.len() > 0
        invariant
            0 <= k <= orig.len(),
            input@ == orig.skip(k),
            newest_first(out@),
            forall|t: Timestamp| #[trigger] created_at(out@, t) == created_at(orig.take(k), t),
            out@.to_multiset() == orig.take(k).to_multiset(),
        decreases input.len(),
    {
        let x = input.remove(0);
        let mut p: usize = 0;
        while p < out.len() && !is_earlier(out[p].created_at, x.created_at)
            invariant
                p <= out.len(),
                forall|q: int| 0 <= q < p ==> !earlier(#[trigger] out@[q].created_at, x.created_at),
            decreases out.len() - p,
        {
            p += 1;
        }
        proof {
            lemma_insert_in_order(out@, p as int, x);
            assert(x == orig[k]);
            assert(orig.take(k + 1) =~= orig.take(k).push(x));
            orig.take(k).to_multiset_ensures();
            assert forall|t: Timestamp| #[trigger] created_at(orig.take(k + 1), t) == if t
                == x.created_at {
                created_at(orig.take(k), t).push(x)
            } else {
                created_at(orig.take(k), t)
            } by {
                reveal_with_fuel(Seq::filter, 1);
                assert(orig.take(k + 1).drop_last() =~= orig.take(k));
            }
            assert(orig.skip(k).drop_first() =~= orig.skip(k + 1));
        }
        out.insert(p, x);
        proof {
            k = k + 1;
        }
    }
    proof {
        assert(orig.take(k) =~= orig);
    }
    out
}


/// Whether a file name has the extension `jsonl`, as `Path::extension`
/// decides it: the name ends with `.jsonl` and has something before that dot.
pub open spec fn session_log_name(name: Seq<char>) -> bool {
    name.len() > 6 && name.skip(name.len() - 6) == ".jsonl"@
}

/// Whether a file name names a session transcript (extension `jsonl`).
pub fn is_session_log_name(name: &str) -> (r: bool)
    ensures
        r == session_log_name(name@),
{
    let v = chars_of(name);
    if v.len() <= 6 {
        return false;
    }
    let suffix = chars_of(".jsonl");
    let r = crate::text::occurs_at_exec(&v, &suffix, v.len() - 6);
    proof {
        reveal_strlit(".jsonl");
        assert(v@.skip(v@.len() - 6) =~= v@.subrange(v@.len() - 6, v@.len() as int));
    }
    r
}


/// The search ignores case: two filters that are both blank, or both not
/// blank with the same lower-case form, match the same sessions.
pub proof fn law_filter_ignores_case(e: SessionEntry, f1: Seq<char>, f2: Seq<char>)
    requires
        blank(f1) == blank(f2),
        unicode_lowercase(f1) == unicode_lowercase(f2),
    ensures
        entry_matches(e, f1) == entry_matches(e, f2),
{
}

/// A non-blank filter whose lower-case form occurs in the lower-case id,
/// title, working directory or originator of a session matches it.
pub proof fn law_filter_searches_fields(e: SessionEntry, filter: Seq<char>)
    requires
        text_matches(e.id@, unicode_lowercase(filter)) || field_matches(
            e.title,
            unicode_lowercase(filter),
        ) || field_matches(e.cwd, unicode_lowercase(filter)) || field_matches(
            e.originator,
            unicode_lowercase(filter),
        ),
    ensures
        entry_matches(e, filter),
{
}


/// A narrower search matches no more sessions: when the lower-case form of a
/// non-blank filter `g` occurs in the lower-case form of a non-blank filter,
/// every session matching that filter also matches `g`.
pub proof fn law_narrower_filter_matches_less(e: SessionEntry, filter: Seq<char>, g: Seq<char>)
    requires
        !blank(filter),
        !blank(g),
        contains_text(unicode_lowercase(filter), unicode_lowercase(g)),
        entry_matches(e, filter),
    ensures
        entry_matches(e, g),
{
    let f = unicode_lowercase(filter);
    let n = unicode_lowercase(g);
    if text_matches(e.id@, f) {
        law_contains_transitive(unicode_lowercase(e.id@), f, n);
    } else if field_matches(e.title, f) {
        law_contains_transitive(unicode_lowercase(e.title->0@), f, n);
    } else if field_matches(e.cwd, f) {
        law_contains_transitive(unicode_lowercase(e.cwd->0@), f, n);
    } else if field_matches(e.originator, f) {
        law_contains_transitive(unicode_lowercase(e.originator->0@), f, n);
    } else {
        let i = choose|i: int|
            0 <= i < e.preview_items.len() && text_matches(#[trigger] e.preview_items@[i].text@, f);
        law_contains_transitive(unicode_lowercase(e.preview_items@[i].text@), f, n);
        assert(text_matches(e.preview_items@[i].text@, n));
    }
}


/// A longer search text matches no more sessions: when a non-blank filter
/// `g` occurs in `filter`, every session matching `filter` also matches `g`.
/// Stated for filters whose Unicode lower-case form is their ASCII
/// lower-case form (as it is for ASCII text under Unicode's case mapping;
/// the trusted lower-casing states no such fact, so it is taken here as a
/// hypothesis).
pub proof fn law_longer_filter_matches_less(e: SessionEntry, filter: Seq<char>, g: Seq<char>)
    requires
        unicode_lowercase(filter) == ascii_lowercase(filter),
        unicode_lowercase(g) == ascii_lowercase(g),
        !blank(g),
        contains_text(filter, g),
        entry_matches(e, filter),
    ensures
        entry_matches(e, g),
{
    law_contains_non_blank(filter, g);
    law_ascii_lowercase_keeps_contains(filter, g);
    law_narrower_filter_matches_less(e, filter, g);
}


/// Every previewed message is searched: a filter whose lower-case form
/// occurs in the lower-case text of the message at any index matches the
/// session.
pub proof fn law_filter_searches_every_preview(e: SessionEntry, filter: Seq<char>, i: int)
    requires
        0 <= i < e.preview_items.len(),
        contains_text(unicode_lowercase(e.preview_items@[i].text@), unicode_lowercase(filter)),
    ensures
        entry_matches(e, filter),
{
    assert(text_matches(e.preview_items@[i].text@, unicode_lowercase(filter)));
}

/// Every session matches a blank filter, and a session matches a non-blank
/// filter only when the filter's lower-case form occurs in the lower-case
/// id, title, working directory, originator or some previewed message.
pub proof fn law_filter_match_needs_occurrence(e: SessionEntry, filter: Seq<char>)
    ensures
        blank(filter) ==> entry_matches(e, filter),
        !blank(filter) && entry_matches(e, filter) ==> {
            let n = unicode_lowercase(filter);
            ||| contains_text(unicode_lowercase(e.id@), n)
            ||| (e.title matches Some(t) && contains_text(unicode_lowercase(t@), n))
            ||| (e.cwd matches Some(c) && contains_text(unicode_lowercase(c@), n))
            ||| (e.originator matches Some(o) && contains_text(unicode_lowercase(o@), n))
            ||| exists|i: int|
                0 <= i < e.preview_items.len() && contains_text(
                    unicode_lowercase(#[trigger] e.preview_items@[i].text@),
                    n,
                )
        },
{
}

/// The title shown for a session is its own title when it has one; without
/// one, a session with no previewed message shows its id.
pub proof fn law_display_title(e: SessionEntry)
    ensures
        e.title matches Some(t) ==> entry_display_title(e) == t@,
        e.title is None && e.preview_items.len() == 0 ==> entry_display_title(e) == e.id@,
        e.title is None && e.preview_items.len() > 0 ==> entry_display_title(e) == truncated(
            role_label(e.preview_items@[0].role) + " "@ + e.preview_items@[0].text@,
            80,
        ),
{
    reveal_strlit(" ");
    assert(" "@ =~= seq![' ']);
}

} // verus!
