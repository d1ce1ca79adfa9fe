//! Character-level text operations used by the session browser.
use vstd::prelude::*;

verus! {

/// Appends one character to a string.
///
/// Trusted: calls `String::push`, which std documents as appending the
/// character to the end of the string.
#[verifier::external_body]
fn push_char(s: &mut String, c: char)
    ensures
        final(s)@ == old(s)@.push(c),
{
    s.push(c);
}

/// The characters of `s`, in order.
pub fn chars_of(s: &str) -> (r: Vec<char>)
    ensures
        r@ == s@,
{
    let mut r: Vec<char> = Vec::new();
    for c in it: s.chars()
        invariant
            r@ == it.seq().take(it.index() as int),
            it.seq() == s@,
    {
        r.push(c);
    }
    r
}


/// The string made of the characters of `v`, in order.
pub fn string_of(v: &Vec<char>) -> (r: String)
    ensures
        r@ == v@,
{
    let mut r = String::new();
    let mut i: usize = 0;
    while i < v.len()
        invariant
            i <= v.len(),
            r@ == v@.take(i as int),
        decreases v.len() - i,
    {
        push_char(&mut r, v[i]);
        i += 1;
        assert(v@.take(i as int) == v@.take(i - 1).push(v@[i - 1]));
    }
    assert(v@.take(v.len() as int) == v@);
    r
}

/// Unicode's White_Space property, the set that `char::is_whitespace`,
/// `str::trim` and `str::split_whitespace` use.
pub open spec fn white_space(c: char) -> bool {
    let u = c as u32;
    ||| 0x09 <= u <= 0x0D
    ||| u == 0x20
    ||| u == 0x85
    ||| u == 0xA0
    ||| u == 0x1680
    ||| 0x2000 <= u <= 0x200A
    ||| u == 0x2028
    ||| u == 0x2029
    ||| u == 0x202F
    ||| u == 0x205F
    ||| u == 0x3000
}

/// Whether `c` is white space in the sense of Unicode's White_Space property.
pub fn is_white_space(c: char) -> (r: bool)
    ensures
        r == white_space(c),
{
    let u = c as u32;
    (0x09 <= u && u <= 0x0D) || u == 0x20 || u == 0x85 || u == 0xA0 || u == 0x1680 || (0x2000
        <= u && u <= 0x200A) || u == 0x2028 || u == 0x2029 || u == 0x202F || u == 0x205F || u
        == 0x3000
}

/// True when every character of `s` is white space (so `s.trim()` is empty).
pub open spec fn blank(s: Seq<char>) -> bool {
    forall|i: int| 0 <= i < s.len() ==> white_space(#[trigger] s[i])
}

/// Number of leading white-space characters of `s`.
pub open spec fn leading_space(s: Seq<char>) -> nat
    decreases s.len(),
{
    if s.len() > 0 && white_space(s[0]) {
        1 + leading_space(s.drop_first())
    } else {
        0
    }
}

/// Number of trailing white-space characters of `s`.
pub open spec fn trailing_space(s: Seq<char>) -> nat
    decreases s.len(),
{
    if s.len() > 0 && white_space(s.last()) {
        1 + trailing_space(s.drop_last())
    } else {
        0
    }
}

/// `s` without its leading and trailing white space, as `str::trim` gives it.
pub open spec fn trimmed(s: Seq<char>) -> Seq<char> {
    let a = s.skip(leading_space(s) as int);
    a.take(a.len() - trailing_space(a))
}

proof fn lemma_leading_space(s: Seq<char>, i: int)
    requires
        0 <= i <= s.len(),
        forall|k: int| 0 <= k < i ==> white_space(#[trigger] s[k]),
        i == s.len() || !white_space(s[i]),
    ensures
        leading_space(s) == i,
    decreases i,
{
    if i > 0 {
        assert forall|k: int| 0 <= k < i - 1 implies white_space(#[trigger] s.drop_first()[k]) by {
            assert(s.drop_first()[k] == s[k + 1]);
        }
        if i - 1 < s.drop_first().len() {
            assert(s.drop_first()[i - 1] == s[i]);
        }
        lemma_leading_space(s.drop_first(), i - 1);
    }
}

proof fn lemma_trailing_space(s: Seq<char>, j: int)
    requires
        0 <= j <= s.len(),
        forall|k: int| j <= k < s.len() ==> white_space(#[trigger] s[k]),
        j == 0 || !white_space(s[j - 1]),
    ensures
        trailing_space(s) == s.len() - j,
    decreases s.len() - j,
{
    if j < s.len() {
        assert forall|k: int| j <= k < s.drop_last().len() implies white_space(
            #[trigger] s.drop_last()[k],
        ) by {
            assert(s.drop_last()[k] == s[k]);
        }
        if j > 0 {
            assert(s.drop_last()[j - 1] == s[j - 1]);
        }
        lemma_trailing_space(s.drop_last(), j);
    }
}

/// Bounds `[start, end)` of `s` without leading and trailing white space.
fn trim_bounds(s: &Vec<char>) -> (r: (usize, usize))
    ensures
        r.0 <= r.1 <= s.len(),
        s@.subrange(r.0 as int, r.1 as int) == trimmed(s@),
        r.0 == leading_space(s@),
{
    let n = s.len();
    let mut i: usize = 0;
    while i < n && is_white_space(s[i])
        invariant
            i <= n == s.len(),
            forall|k: int| 0 <= k < i ==> white_space(#[trigger] s@[k]),
        decreases n - i,
    {
        i += 1;
    }
    proof {
        lemma_leading_space(s@, i as int);
    }
    let mut j: usize = n;
    while j > i && is_white_space(s[j - 1])
        invariant
            i <= j <= n == s.len(),
            forall|k: int| j <= k < n ==> white_space(#[trigger] s@[k]),
        decreases j,
    {
        j -= 1;
    }
    proof {
        let a = s@.skip(i as int);
        assert forall|k: int| j - i <= k < a.len() implies white_space(#[trigger] a[k]) by {
            assert(a[k] == s@[k + i]);
        }
        if j > i {
            assert(a[j - i - 1] == s@[j - 1]);
        }
        lemma_trailing_space(a, j - i);
        assert(a.take(j - i) == s@.subrange(i as int, j as int));
    }
    (i, j)
}

/// `s` without leading and trailing white space, as `str::trim` gives it.
pub fn trim_chars(s: &Vec<char>) -> (r: Vec<char>)
    ensures
        r@ == trimmed(s@),
{
    let (a, b) = trim_bounds(s);
    let mut r: Vec<char> = Vec::new();
    let mut k = a;
    while k < b
        invariant
            a <= k <= b <= s.len(),
            r@ == s@.subrange(a as int, k as int),
        decreases b - k,
    {
        r.push(s[k]);
        k += 1;
    }
    r
}

proof fn lemma_leading_space_props(s: Seq<char>)
    ensures
        leading_space(s) <= s.len(),
        forall|k: int| 0 <= k < leading_space(s) ==> white_space(#[trigger] s[k]),
        leading_space(s) < s.len() ==> !white_space(s[leading_space(s) as int]),
    decreases s.len(),
{
    if s.len() > 0 && white_space(s[0]) {
        lemma_leading_space_props(s.drop_first());
        assert forall|k: int| 0 <= k < leading_space(s) implies white_space(#[trigger] s[k]) by {
            if k > 0 {
                assert(s[k] == s.drop_first()[k - 1]);
            }
        }
        if leading_space(s) < s.len() {
            assert(s[leading_space(s) as int] == s.drop_first()[leading_space(s.drop_first()) as int]);
        }
    }
}

/// A string is blank exactly when its trimmed form is empty.
pub proof fn lemma_blank_iff_trimmed_empty(s: Seq<char>)
    ensures
        blank(s) <==> trimmed(s).len() == 0,
{
    lemma_leading_space_props(s);
    let l = leading_space(s) as int;
    let a = s.skip(l);
    if l < s.len() {
        assert(a[0] == s[l]);
        lemma_trailing_space_bound(a);
        assert(!blank(s)) by {
            assert(!white_space(s[l]));
        }
    } else {
        assert(a.len() == 0);
        assert(blank(s));
    }
}

proof fn lemma_trailing_space_bound(s: Seq<char>)
    requires
        s.len() > 0,
        !white_space(s[0]),
    ensures
        trailing_space(s) < s.len(),
    decreases s.len(),
{
    if white_space(s.last()) && s.len() > 1 {
        assert(s.drop_last()[0] == s[0]);
        lemma_trailing_space_bound(s.drop_last());
    }
}

/// Whether `s` is blank, i.e. `s.trim().is_empty()`.
pub fn is_blank(s: &str) -> (r: bool)
    ensures
        r == blank(s@),
        r == (trimmed(s@).len() == 0),
{
    proof {
        lemma_blank_iff_trimmed_empty(s@);
    }
    let v = chars_of(s);
    let mut i: usize = 0;
    while i < v.len()
        invariant
            i <= v.len(),
            v@ == s@,
            blank(s@) <==> trimmed(s@).len() == 0,
            forall|k: int| 0 <= k < i ==> white_space(#[trigger] v@[k]),
        decreases v.len() - i,
    {
        if !is_white_space(v[i]) {
            assert(!white_space(s@[i as int]));
            return false;
        }
        i += 1;
    }
    true
}


/// Whether `needle` occurs in `hay` starting at position `at`.
pub open spec fn occurs_at(hay: Seq<char>, needle: Seq<char>, at: int) -> bool {
    0 <= at && at + needle.len() <= hay.len() && hay.subrange(at, at + needle.len()) == needle
}

/// Whether `needle` occurs anywhere in `hay`, as `str::contains` with a string
/// pattern decides it (the empty needle occurs in every string).
pub open spec fn contains_text(hay: Seq<char>, needle: Seq<char>) -> bool {
    exists|at: int| occurs_at(hay, needle, at)
}

/// Whether `prefix` is a prefix of `s`, as `str::starts_with` decides it.
pub open spec fn starts_with_text(s: Seq<char>, prefix: Seq<char>) -> bool {
    occurs_at(s, prefix, 0)
}

/// Whether `needle` occurs in `hay` at position `at`.
pub fn occurs_at_exec(hay: &Vec<char>, needle: &Vec<char>, at: usize) -> (r: bool)
    ensures
        r == occurs_at(hay@, needle@, at as int),
{
    if at > hay.len() || needle.len() > hay.len() - at {
        return false;
    }
    let mut k: usize = 0;
    while k < needle.len()
        invariant
            at + needle.len() <= hay.len(),
            k <= needle.len(),
            forall|q: int| 0 <= q < k ==> hay@[at + q] == needle@[q],
        decreases needle.len() - k,
    {
        if hay[at + k] != needle[k] {
            assert(hay@.subrange(at as int, at + needle.len())[k as int] != needle@[k as int]);
            return false;
        }
        k += 1;
    }
    assert(hay@.subrange(at as int, at + needle.len()) =~= needle@);
    true
}

/// Whether `prefix` is a prefix of `s`.
pub fn starts_with_chars(s: &Vec<char>, prefix: &Vec<char>) -> (r: bool)
    ensures
        r == starts_with_text(s@, prefix@),
{
    occurs_at_exec(s, prefix, 0)
}

/// Whether the two character sequences are equal.
pub fn chars_equal(a: &Vec<char>, b: &Vec<char>) -> (r: bool)
    ensures
        r == (a@ == b@),
{
    if a.len() != b.len() {
        return false;
    }
    let r = occurs_at_exec(a, b, 0);
    assert(a@.subrange(0, b@.len() as int) =~= a@);
    r
}

/// Whether `needle` occurs anywhere in `hay`.
pub fn contains_chars(hay: &Vec<char>, needle: &Vec<char>) -> (r: bool)
    ensures
        r == contains_text(hay@, needle@),
{
    if needle.len() > hay.len() {
        return false;
    }
    let last = hay.len() - needle.len();
    let mut at: usize = 0;
    loop
        invariant
            last == hay.len() - needle.len(),
            at <= last,
            forall|q: int| 0 <= q < at ==> !occurs_at(hay@, needle@, q),
        decreases last - at,
    {
        if occurs_at_exec(hay, needle, at) {
            return true;
        }
        if at == last {
            return false;
        }
        at += 1;
    }
}

/// `c` with ASCII letters `A`..=`Z` mapped to lower case, as
/// `char::to_ascii_lowercase` gives it.
pub open spec fn ascii_lower(c: char) -> char {
    if 'A' <= c <= 'Z' {
        ((c as u32) + 32) as char
    } else {
        c
    }
}

/// `s` with every character mapped by [`ascii_lower`], as `str::to_ascii_lowercase`.
pub open spec fn ascii_lowercase(s: Seq<char>) -> Seq<char> {
    s.map_values(|c: char| ascii_lower(c))
}

/// Lower-cases the ASCII letters of `s`.
pub fn ascii_lowercase_chars(s: &Vec<char>) -> (r: Vec<char>)
    ensures
        r@ == ascii_lowercase(s@),
{
    let mut r: Vec<char> = Vec::new();
    let mut i: usize = 0;
    while i < s.len()
        invariant
            i <= s.len(),
            r@ == ascii_lowercase(s@.take(i as int)),
        decreases s.len() - i,
    {
        let c = s[i];
        let lower = if 'A' <= c && c <= 'Z' {
            ((c as u8) + 32) as char
        } else {
            c
        };
        r.push(lower);
        i += 1;
        assert(ascii_lowercase(s@.take(i as int)) =~= ascii_lowercase(s@.take(i - 1)).push(ascii_lower(c)));
    }
    assert(s@.take(s.len() as int) == s@);
    r
}


/// The zero-width space, a break opportunity that renders as nothing.
pub open spec fn zero_width_space() -> char {
    '\u{200b}'
}

/// The characters after which a soft break is offered: `/`, `\`, `_`, `-`,
/// `>` and `<`.
pub open spec fn soft_break_char(c: char) -> bool {
    c == '/' || c == '\\' || c == '_' || c == '-' || c == '>' || c == '<'
}

/// What one input character becomes: itself, followed by a zero-width space
/// when it is a soft-break character.
pub open spec fn soft_piece(c: char) -> Seq<char> {
    if soft_break_char(c) {
        seq![c, zero_width_space()]
    } else {
        seq![c]
    }
}

/// `s` with a zero-width space inserted after every soft-break character.
pub open spec fn soft_wrapped(s: Seq<char>) -> Seq<char>
    decreases s.len(),
{
    if s.len() == 0 {
        Seq::empty()
    } else {
        soft_wrapped(s.drop_last()) + soft_piece(s.last())
    }
}

/// Inserts a zero-width space after every `/`, `\`, `_`, `-`, `>` and `<` so
/// that long paths and identifiers can wrap.
pub fn soft_wrap_text(input: &str) -> (r: String)
    ensures
        r@ == soft_wrapped(input@),
{
    let v = chars_of(input);
    let mut r = String::new();
    let mut i: usize = 0;
    while i < v.len()
        invariant
            i <= v.len(),
            v@ == input@,
            r@ == soft_wrapped(v@.take(i as int)),
        decreases v.len() - i,
    {
        let c = v[i];
        push_char(&mut r, c);
        if c == '/' || c == '\\' || c == '_' || c == '-' || c == '>' || c == '<' {
            push_char(&mut r, '\u{200b}');
        }
        i += 1;
        assert(v@.take(i as int).drop_last() =~= v@.take(i - 1));
        assert(r@ =~= soft_wrapped(v@.take(i as int)));
    }
    assert(v@.take(v.len() as int) =~= v@);
    r
}

/// `s` cut to at most `max_len` characters: unchanged when it fits, otherwise
/// its first `max_len - 1` characters (none when `max_len` is 0) followed by `…`.
pub open spec fn truncated(s: Seq<char>, max_len: nat) -> Seq<char> {
    if s.len() <= max_len {
        s
    } else {
        s.take(if max_len > 0 { max_len - 1 } else { 0 }).push('…')
    }
}

/// The characters of `v` cut to at most `max_len` characters, ending in `…`
/// when anything was cut.
pub fn truncate_chars(v: &Vec<char>, max_len: usize) -> (r: Vec<char>)
    ensures
        r@ == truncated(v@, max_len as nat),
{
    if v.len() <= max_len {
        let mut r: Vec<char> = Vec::new();
        let mut i: usize = 0;
        while i < v.len()
            invariant
                i <= v.len(),
                r@ == v@.take(i as int),
            decreases v.len() - i,
        {
            r.push(v[i]);
            i += 1;
        }
        assert(v@.take(v.len() as int) =~= v@);
        return r;
    }
    let keep = if max_len > 0 { max_len - 1 } else { 0 };
    let mut r: Vec<char> = Vec::new();
    let mut i: usize = 0;
    while i < keep
        invariant
            keep < v.len(),
            i <= keep,
            r@ == v@.take(i as int),
        decreases keep - i,
    {
        r.push(v[i]);
        i += 1;
    }
    r.push('…');
    r
}

/// Cuts `input` to at most `max_len` characters, marking a cut with `…`.
pub fn truncate_with_ellipsis(input: &str, max_len: usize) -> (r: String)
    ensures
        r@ == truncated(input@, max_len as nat),
{
    let v = chars_of(input);
    let t = truncate_chars(&v, max_len);
    string_of(&t)
}


/// `s` with every zero-width space removed.
pub open spec fn without_zero_width(s: Seq<char>) -> Seq<char> {
    s.filter(|c: char| c != zero_width_space())
}

/// Soft wrapping only inserts zero-width spaces: removing them from the result
/// gives the input with its own zero-width spaces removed.
pub proof fn law_soft_wrap_only_inserts_breaks(s: Seq<char>)
    ensures
        without_zero_width(soft_wrapped(s)) == without_zero_width(s),
    decreases s.len(),
{
    let pred = |c: char| c != zero_width_space();
    if s.len() > 0 {
        law_soft_wrap_only_inserts_breaks(s.drop_last());
        let c = s.last();
        Seq::filter_distributes_over_add(soft_wrapped(s.drop_last()), soft_piece(c), pred);
        assert(s =~= s.drop_last() + seq![c]);
        Seq::filter_distributes_over_add(s.drop_last(), seq![c], pred);
        reveal_with_fuel(Seq::filter, 3);
        if soft_break_char(c) {
            assert(seq![c, zero_width_space()].drop_last() =~= seq![c]);
            assert(seq![c].drop_last() =~= Seq::<char>::empty());
        } else {
            assert(seq![c].drop_last() =~= Seq::<char>::empty());
        }
    } else {
        reveal_with_fuel(Seq::filter, 1);
    }
}

/// Number of soft-break characters in `s`.
pub open spec fn soft_break_count(s: Seq<char>) -> nat
    decreases s.len(),
{
    if s.len() == 0 {
        0
    } else {
        soft_break_count(s.drop_last()) + if soft_break_char(s.last()) { 1nat } else { 0nat }
    }
}

/// Soft wrapping adds exactly one character per soft-break character, and
/// leaves a string without soft-break characters unchanged.
pub proof fn law_soft_wrap_length(s: Seq<char>)
    ensures
        soft_wrapped(s).len() == s.len() + soft_break_count(s),
        soft_break_count(s) == 0 ==> soft_wrapped(s) == s,
    decreases s.len(),
{
    if s.len() > 0 {
        law_soft_wrap_length(s.drop_last());
        if soft_break_count(s) == 0 {
            assert(s =~= s.drop_last() + seq![s.last()]);
        }
    }
}

/// A truncated string has at most `max(max_len, 1)` characters, is the input
/// itself when the input fits, and otherwise keeps a prefix of the input and
/// ends with `…`.
pub proof fn law_truncation_bounds(s: Seq<char>, max_len: nat)
    ensures
        truncated(s, max_len).len() <= if max_len > 0 { max_len } else { 1 },
        s.len() <= max_len ==> truncated(s, max_len) == s,
        s.len() > max_len ==> {
            &&& truncated(s, max_len).len() == if max_len > 0 { max_len } else { 1 }
            &&& truncated(s, max_len).last() == '…'
            &&& truncated(s, max_len).drop_last() == s.take(truncated(s, max_len).len() - 1)
        },
{
    if s.len() > max_len {
        let t = truncated(s, max_len);
        assert(t.drop_last() =~= s.take(t.len() - 1));
    }
}


/// The characters `v[a..b]`.
pub fn slice_chars(v: &Vec<char>, a: usize, b: usize) -> (r: Vec<char>)
    requires
        a <= b <= v.len(),
    ensures
        r@ == v@.subrange(a as int, b as int),
{
    let mut r: Vec<char> = Vec::new();
    let mut k = a;
    while k < b
        invariant
            a <= k <= b <= v.len(),
            r@ == v@.subrange(a as int, k as int),
        decreases b - k,
    {
        r.push(v[k]);
        k += 1;
    }
    r
}

/// The words of `s` (its maximal runs of non-white-space characters) joined
/// by single spaces, as `s.split_whitespace().collect::<Vec<_>>().join(" ")`
/// gives it. The second component tells whether white space followed the
/// last word so far.
pub open spec fn collapse_scan(s: Seq<char>) -> (Seq<char>, bool)
    decreases s.len(),
{
    if s.len() == 0 {
        (Seq::empty(), false)
    } else {
        let (out, gap) = collapse_scan(s.drop_last());
        let c = s.last();
        if white_space(c) {
            (out, true)
        } else if gap && out.len() > 0 {
            (out + seq![' ', c], false)
        } else {
            (out.push(c), false)
        }
    }
}

/// The words of `s` joined by single spaces.
pub open spec fn collapsed(s: Seq<char>) -> Seq<char> {
    collapse_scan(s).0
}

/// Joins the words of `s` with single spaces.
pub fn collapse_whitespace(s: &Vec<char>) -> (r: Vec<char>)
    ensures
        r@ == collapsed(s@),
{
    let mut out: Vec<char> = Vec::new();
    let mut gap = false;
    let mut i: usize = 0;
    while i < s.len()
        invariant
            i <= s.len(),
            (out@, gap) == collapse_scan(s@.take(i as int)),
        decreases s.len() - i,
    {
        let c = s[i];
        assert(s@.take(i + 1).drop_last() =~= s@.take(i as int));
        if is_white_space(c) {
            gap = true;
        } else if gap && out.len() > 0 {
            out.push(' ');
            out.push(c);
            gap = false;
        } else {
            out.push(c);
            gap = false;
        }
        i += 1;
        assert((out@, gap) == collapse_scan(s@.take(i as int)));
    }
    assert(s@.take(s.len() as int) =~= s@);
    out
}


/// The lower-case form of `s` that `str::to_lowercase` gives (Unicode's full
/// lower-case mapping, with the final-sigma rule).
pub uninterp spec fn unicode_lowercase(s: Seq<char>) -> Seq<char>;

/// Lower-cases `s` by Unicode's rules.
///
/// Trusted: calls `str::to_lowercase`. The contract claims only that the
/// result is what [`unicode_lowercase`] names for the input.
#[verifier::external_body]
pub(crate) fn to_lowercase(s: &str) -> (r: String)
    ensures
        r@ == unicode_lowercase(s@),
{
    s.to_lowercase()
}


/// The decimal digit character for `d` (`d` below 10).
pub open spec fn digit_char(d: nat) -> char {
    ((48 + d) as u8) as char
}

/// The decimal representation of `n`, as `u64::to_string` prints it.
pub open spec fn decimal(n: nat) -> Seq<char>
    decreases n,
{
    if n < 10 {
        seq![digit_char(n)]
    } else {
        decimal(n / 10).push(digit_char(n % 10))
    }
}

/// The decimal representation of `n`.
pub fn decimal_chars(n: u64) -> (r: Vec<char>)
    ensures
        r@ == decimal(n as nat),
    decreases n,
{
    let d: u8 = (n % 10) as u8;
    let c = (48u8 + d) as char;
    if n < 10 {
        let mut v: Vec<char> = Vec::new();
        v.push(c);
        v
    } else {
        let mut v = decimal_chars(n / 10);
        v.push(c);
        v
    }
}


/// Whether `s` is words joined by single spaces: its only white space is
/// the space character, it neither starts nor ends with one, and no two
/// spaces are adjacent.
pub open spec fn single_spaced(s: Seq<char>) -> bool {
    &&& forall|i: int| 0 <= i < s.len() && white_space(#[trigger] s[i]) ==> s[i] == ' '
    &&& s.len() > 0 ==> s[0] != ' ' && s.last() != ' '
    &&& forall|i: int| 0 <= i < s.len() - 1 && #[trigger] s[i] == ' ' ==> s[i + 1] != ' '
}

/// Joining the words of a text with single spaces yields a single-spaced
/// text, and a non-empty one when the text has any non-white-space character.
pub proof fn law_collapsed_single_spaced(s: Seq<char>)
    ensures
        single_spaced(collapsed(s)),
        (exists|i: int| 0 <= i < s.len() && !white_space(#[trigger] s[i])) ==> collapsed(s).len()
            > 0,
    decreases s.len(),
{
    if s.len() > 0 {
        let prev = s.drop_last();
        law_collapsed_single_spaced(prev);
        let (out, gap) = collapse_scan(prev);
        let c = s.last();
        let now = collapsed(s);
        if !white_space(c) {
            if gap && out.len() > 0 {
                assert(now == out + seq![' ', c]);
                assert forall|i: int| 0 <= i < now.len() - 1 && #[trigger] now[i] == ' ' implies now[i
                    + 1] != ' ' by {
                    if i < out.len() - 1 {
                        assert(now[i] == out[i] && now[i + 1] == out[i + 1]);
                    }
                }
                assert forall|i: int| 0 <= i < now.len() && white_space(#[trigger] now[i]) implies now[i]
                    == ' ' by {
                    if i < out.len() {
                        assert(now[i] == out[i]);
                    }
                }
            } else {
                assert(now == out.push(c));
                assert forall|i: int| 0 <= i < now.len() - 1 && #[trigger] now[i] == ' ' implies now[i
                    + 1] != ' ' by {
                    if i < out.len() - 1 {
                        assert(now[i] == out[i] && now[i + 1] == out[i + 1]);
                    }
                }
                assert forall|i: int| 0 <= i < now.len() && white_space(#[trigger] now[i]) implies now[i]
                    == ' ' by {
                    if i < out.len() {
                        assert(now[i] == out[i]);
                    }
                }
            }
        } else {
            if exists|i: int| 0 <= i < s.len() && !white_space(#[trigger] s[i]) {
                let i = choose|i: int| 0 <= i < s.len() && !white_space(#[trigger] s[i]);
                assert(prev[i] == s[i]);
            }
        }
    }
}


/// Occurrence is transitive: a text that occurs in a text occurring in `hay`
/// occurs in `hay`.
pub proof fn law_contains_transitive(hay: Seq<char>, mid: Seq<char>, needle: Seq<char>)
    requires
        contains_text(hay, mid),
        contains_text(mid, needle),
    ensures
        contains_text(hay, needle),
{
    let a = choose|a: int| occurs_at(hay, mid, a);
    let b = choose|b: int| occurs_at(mid, needle, b);
    assert forall|q: int| 0 <= q < needle.len() implies #[trigger] hay.subrange(
        a + b,
        a + b + needle.len(),
    )[q] == needle[q] by {
        assert(hay.subrange(a, a + mid.len())[b + q] == mid[b + q]);
        assert(mid.subrange(b, b + needle.len())[q] == needle[q]);
    }
    assert(hay.subrange(a + b, a + b + needle.len()) =~= needle);
    assert(occurs_at(hay, needle, a + b));
}


/// Lower-casing ASCII letters keeps occurrences: when `needle` occurs in
/// `hay`, its lower-cased form occurs in the lower-cased `hay`.
pub proof fn law_ascii_lowercase_keeps_contains(hay: Seq<char>, needle: Seq<char>)
    requires
        contains_text(hay, needle),
    ensures
        contains_text(ascii_lowercase(hay), ascii_lowercase(needle)),
{
    let a = choose|a: int| occurs_at(hay, needle, a);
    let lh = ascii_lowercase(hay);
    let ln = ascii_lowercase(needle);
    assert forall|q: int| 0 <= q < ln.len() implies #[trigger] lh.subrange(a, a + ln.len())[q]
        == ln[q] by {
        assert(hay.subrange(a, a + needle.len())[q] == needle[q]);
    }
    assert(lh.subrange(a, a + ln.len()) =~= ln);
    assert(occurs_at(lh, ln, a));
}

/// A text in which a non-blank text occurs is not blank.
pub proof fn law_contains_non_blank(hay: Seq<char>, needle: Seq<char>)
    requires
        contains_text(hay, needle),
        !blank(needle),
    ensures
        !blank(hay),
{
    let a = choose|a: int| occurs_at(hay, needle, a);
    let q = choose|q: int| 0 <= q < needle.len() && !white_space(#[trigger] needle[q]);
    assert(hay.subrange(a, a + needle.len())[q] == needle[q]);
    assert(!white_space(hay[a + q]));
}


/// Soft wrapping works character by character: the wrap of a concatenation
/// is the concatenation of the wraps, and a single character is followed by
/// a zero-width space exactly when it is one of `/`, `\`, `_`, `-`, `>`, `<`.
pub proof fn law_soft_wrap_by_character(a: Seq<char>, b: Seq<char>, c: char)
    ensures
        soft_wrapped(a + b) == soft_wrapped(a) + soft_wrapped(b),
        soft_wrapped(seq![c]) == if c == '/' || c == '\\' || c == '_' || c == '-' || c == '>' || c
            == '<' {
            seq![c, '\u{200b}']
        } else {
            seq![c]
        },
    decreases b.len(),
{
    assert(seq![c].drop_last() =~= Seq::<char>::empty());
    assert(seq![c].last() == c);
    assert(soft_wrapped(Seq::<char>::empty()) == Seq::<char>::empty());
    assert(soft_wrapped(seq![c]) == soft_wrapped(seq![c].drop_last()) + soft_piece(c));
    assert(soft_wrapped(seq![c]) =~= soft_piece(c));
    if b.len() == 0 {
        assert(a + b =~= a);
        assert(soft_wrapped(a) + soft_wrapped(b) =~= soft_wrapped(a));
    } else {
        law_soft_wrap_by_character(a, b.drop_last(), c);
        assert((a + b).drop_last() =~= a + b.drop_last());
        assert((a + b).last() == b.last());
        assert(soft_wrapped(a + b) =~= soft_wrapped(a) + soft_wrapped(b));
    }
}

} // verus!
