//! Choosing a short title for a session from the text of a prompt.
use vstd::prelude::*;

use crate::text::{
    ascii_lowercase, ascii_lowercase_chars, blank, law_truncation_bounds,
    lemma_blank_iff_trimmed_empty, law_collapsed_single_spaced, white_space, chars_equal, chars_of, collapse_whitespace, collapsed,
    slice_chars, starts_with_chars, starts_with_text, string_of, trim_chars, trimmed,
    truncate_chars, truncated,
};

verus! {

/// Longest title, in characters.
pub const TITLE_CHAR_LIMIT: usize = 80;

/// Lower-cased openings that mark a prompt as injected context rather than
/// something the user typed; such a prompt gives no title.
pub open spec fn blocked_title_opening(lower: Seq<char>) -> bool {
    ||| starts_with_text(lower, "# agents.md instructions for"@)
    ||| starts_with_text(lower, "# agents.md"@)
    ||| starts_with_text(lower, "<environment_context>"@)
    ||| starts_with_text(lower, "<permissions instructions>"@)
    ||| starts_with_text(lower, "<instructions>"@)
    ||| starts_with_text(lower, "<app-context>"@)
    ||| starts_with_text(lower, "<collaboration_mode>"@)
    ||| starts_with_text(lower, "<apps_instructions>"@)
    ||| starts_with_text(lower, "<skills_instructions>"@)
    ||| starts_with_text(lower, "<plugins_instructions>"@)
}

/// Number of characters before the first line feed of `s` (all of `s` when
/// it has none).
pub open spec fn line_length(s: Seq<char>) -> nat
    decreases s.len(),
{
    if s.len() == 0 || s[0] == '\n' {
        0
    } else {
        1 + line_length(s.drop_first())
    }
}

proof fn lemma_line_length(s: Seq<char>, m: int)
    requires
        0 <= m <= s.len(),
        forall|q: int| 0 <= q < m ==> #[trigger] s[q] != '\n',
        m == s.len() || s[m] == '\n',
    ensures
        line_length(s) == m,
    decreases m,
{
    if m > 0 {
        assert forall|q: int| 0 <= q < m - 1 implies #[trigger] s.drop_first()[q] != '\n' by {
            assert(s.drop_first()[q] == s[q + 1]);
        }
        if m < s.len() {
            assert(s.drop_first()[m - 1] == s[m]);
        }
        lemma_line_length(s.drop_first(), m - 1);
    }
}

/// A line is never longer than the text it starts.
pub proof fn lemma_line_length_bound(s: Seq<char>)
    ensures
        line_length(s) <= s.len(),
    decreases s.len(),
{
    if s.len() > 0 && s[0] != '\n' {
        lemma_line_length_bound(s.drop_first());
    }
}

/// A trimmed line that can serve as a title: not empty, not an image marker,
/// not a code fence and not a Markdown image.
pub open spec fn title_line_ok(line: Seq<char>) -> bool {
    &&& line.len() > 0
    &&& line != "<image>"@
    &&& line != "</image>"@
    &&& !starts_with_text(line, "```"@)
    &&& !starts_with_text(line, "!["@)
}

/// The first line of `s`, trimmed, that can serve as a title. Lines are split
/// at line feeds; on a trimmed text this is what `str::lines` yields, since
/// trimming each line also removes the carriage return that `lines` strips.
pub open spec fn first_title_line(s: Seq<char>) -> Option<Seq<char>>
    decreases s.len(),
{
    let k = line_length(s);
    let line = trimmed(s.take(k as int));
    if title_line_ok(line) {
        Some(line)
    } else if k < s.len() {
        proof {
            lemma_line_length_bound(s);
        }
        first_title_line(s.skip(k + 1 as int))
    } else {
        None
    }
}

/// The title that a prompt suggests: none for a blank prompt or one that
/// opens with injected context; otherwise the first usable line, its words
/// joined by single spaces and cut to 80 characters.
pub open spec fn title_candidate(input: Seq<char>) -> Option<Seq<char>> {
    let t = trimmed(input);
    if t.len() == 0 {
        None
    } else if blocked_title_opening(ascii_lowercase(t)) {
        None
    } else {
        match first_title_line(t) {
            None => None,
            Some(line) => {
                let c = collapsed(line);
                if c.len() == 0 {
                    None
                } else {
                    Some(truncated(c, TITLE_CHAR_LIMIT as nat))
                }
            },
        }
    }
}

fn opens_with(s: &Vec<char>, prefix: &str) -> (r: bool)
    ensures
        r == starts_with_text(s@, prefix@),
{
    starts_with_chars(s, &chars_of(prefix))
}

fn is_title_line(line: &Vec<char>) -> (r: bool)
    ensures
        r == title_line_ok(line@),
{
    line.len() > 0 && !chars_equal(line, &chars_of("<image>")) && !chars_equal(
        line,
        &chars_of("</image>"),
    ) && !opens_with(line, "```") && !opens_with(line, "![")
}

fn find_title_line(t: &Vec<char>) -> (r: Option<Vec<char>>)
    ensures
        r matches Some(line) ==> first_title_line(t@) == Some(line@),
        r is None ==> first_title_line(t@) is None,
{
    let n = t.len();
    let mut pos: usize = 0;
    assert(t@.skip(0) =~= t@);
    loop
        invariant
            n == t.len(),
            pos <= n,
            first_title_line(t@) == first_title_line(t@.skip(pos as int)),
        decreases n - pos,
    {
        let mut end = pos;
        while end < n && t[end] != '\n'
            invariant
                pos <= end <= n == t.len(),
                forall|q: int| pos <= q < end ==> #[trigger] t@[q] != '\n',
            decreases n - end,
        {
            end += 1;
        }
        let ghost rest = t@.skip(pos as int);
        proof {
            assert forall|q: int| 0 <= q < end - pos implies #[trigger] rest[q] != '\n' by {
                assert(rest[q] == t@[q + pos]);
            }
            if end < n {
                assert(rest[end - pos] == t@[end as int]);
            }
            lemma_line_length(rest, end - pos);
            assert(rest.take(end - pos) =~= t@.subrange(pos as int, end as int));
        }
        let raw = slice_chars(t, pos, end);
        let line = trim_chars(&raw);
        if is_title_line(&line) {
            return Some(line);
        }
        if end == n {
            return None;
        }
        proof {
            assert(rest.skip(end - pos + 1) =~= t@.skip(end + 1));
        }
        pos = end + 1;
    }
}

/// The title that a prompt suggests, if any.
pub fn derive_title_candidate(input: &str) -> (r: Option<String>)
    ensures
        r matches Some(t) ==> title_candidate(input@) == Some(t@),
        r is None ==> title_candidate(input@) is None,
{
    let v = chars_of(input);
    let t = trim_chars(&v);
    if t.len() == 0 {
        return None;
    }
    let lower = ascii_lowercase_chars(&t);
    if opens_with(&lower, "# agents.md instructions for") || opens_with(&lower, "# agents.md")
        || opens_with(&lower, "<environment_context>") || opens_with(
        &lower,
        "<permissions instructions>",
    ) || opens_with(&lower, "<instructions>") || opens_with(&lower, "<app-context>")
        || opens_with(&lower, "<collaboration_mode>") || opens_with(&lower, "<apps_instructions>")
        || opens_with(&lower, "<skills_instructions>") || opens_with(
        &lower,
        "<plugins_instructions>",
    ) {
        return None;
    }
    match find_title_line(&t) {
        None => None,
        Some(line) => {
            let c = collapse_whitespace(&line);
            if c.len() == 0 {
                None
            } else {
                let cut = truncate_chars(&c, TITLE_CHAR_LIMIT);
                Some(string_of(&cut))
            }
        },
    }
}


/// A suggested title is never empty, never longer than 80 characters, has
/// no white space but single spaces between words (in particular no line
/// break) and does not start with a space; a blank prompt suggests none.
pub proof fn law_title_shape(input: Seq<char>)
    ensures
        title_candidate(input) matches Some(t) ==> {
            &&& 1 <= t.len() <= TITLE_CHAR_LIMIT
            &&& t[0] != ' '
            &&& forall|i: int| 0 <= i < t.len() && white_space(#[trigger] t[i]) ==> t[i] == ' '
        },
        blank(input) ==> title_candidate(input) is None,
{
    lemma_blank_iff_trimmed_empty(input);
    let t = trimmed(input);
    if t.len() > 0 && !blocked_title_opening(ascii_lowercase(t)) {
        if let Some(line) = first_title_line(t) {
            let c = collapsed(line);
            law_truncation_bounds(c, TITLE_CHAR_LIMIT as nat);
            law_collapsed_single_spaced(line);
            if c.len() > 0 {
                let r = truncated(c, TITLE_CHAR_LIMIT as nat);
                if c.len() > TITLE_CHAR_LIMIT {
                    assert forall|i: int| 0 <= i < r.len() && white_space(#[trigger] r[i]) implies r[i]
                        == ' ' by {
                        if i < r.len() - 1 {
                            assert(r[i] == c[i]);
                        }
                    }
                    assert(r[0] == c[0]);
                }
            }
        }
    }
}


/// A prompt that opens with injected context gives no title: for each of
/// the ten blocked openings `p`, a prompt whose trimmed, ASCII-lower-cased
/// text starts with `p` yields none.
pub proof fn law_blocked_openings_give_no_title(input: Seq<char>, p: Seq<char>)
    requires
        p == "# agents.md instructions for"@ || p == "# agents.md"@ || p
            == "<environment_context>"@ || p == "<permissions instructions>"@ || p
            == "<instructions>"@ || p == "<app-context>"@ || p == "<collaboration_mode>"@ || p
            == "<apps_instructions>"@ || p == "<skills_instructions>"@ || p
            == "<plugins_instructions>"@,
        starts_with_text(ascii_lowercase(trimmed(input)), p),
    ensures
        title_candidate(input) is None,
{
}

/// When the first line of a trimmed prompt is usable (not empty, not an image
/// marker, not a code fence or Markdown image) and the prompt does not open
/// with injected context, the title is that line's words joined by single
/// spaces, cut to 80 characters.
pub proof fn law_title_from_first_line(input: Seq<char>)
    requires
        trimmed(input).len() > 0,
        !blocked_title_opening(ascii_lowercase(trimmed(input))),
        title_line_ok(trimmed(trimmed(input).take(line_length(trimmed(input)) as int))),
    ensures
        title_candidate(input) == {
            let line = trimmed(trimmed(input).take(line_length(trimmed(input)) as int));
            let c = collapsed(line);
            if c.len() == 0 {
                None
            } else {
                Some(truncated(c, 80))
            }
        },
{
}

/// Image markers, code fences and Markdown images are never titles, and
/// neither is an empty line.
pub proof fn law_unusable_title_lines(line: Seq<char>)
    ensures
        line.len() == 0 ==> !title_line_ok(line),
        line == "<image>"@ ==> !title_line_ok(line),
        line == "</image>"@ ==> !title_line_ok(line),
        starts_with_text(line, "```"@) ==> !title_line_ok(line),
        starts_with_text(line, "!["@) ==> !title_line_ok(line),
{
}

} // verus!
