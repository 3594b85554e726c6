//! Text sanitizer: turns the text of a tracker field into text that the
//! target's markup renderer shows as it was written.

use crate::strings::{
    chars_of, disjoint, lemma_replace_all_absent, lemma_replace_all_brings_no_occurrence,
    occurs_at, occurs_in, replace, replace_all, string_of,
};
use vstd::prelude::*;

verus! {

/// Whether `c` is one of the characters that the target's markup renderer
/// interprets: heading, emphasis, strikethrough and caret.
pub open spec fn is_markup_control(c: char) -> bool {
    c == '#' || c == '*' || c == '_' || c == '~' || c == '^'
}

/// Executable test for [`is_markup_control`].
pub fn markup_control(c: char) -> (r: bool)
    ensures
        r == is_markup_control(c),
{
    c == '#' || c == '*' || c == '_' || c == '~' || c == '^'
}

/// What one character becomes when markup is escaped: itself, behind a
/// backslash if the renderer would interpret it.
pub open spec fn escaped_char(c: char) -> Seq<char> {
    if is_markup_control(c) {
        seq!['\\', c]
    } else {
        seq![c]
    }
}

/// `s` with a backslash put before every markup control character.
pub open spec fn escape_markup(s: Seq<char>) -> Seq<char>
    decreases s.len(),
{
    if s.len() == 0 {
        Seq::empty()
    } else {
        escape_markup(s.drop_last()) + escaped_char(s.last())
    }
}

/// `s` with the tracker's encoded line breaks, tabs, quotes and apostrophe
/// entity turned into the characters they stand for. A line break becomes
/// the target's hard line break: two spaces and a newline. The steps run in
/// this order, each over the result of the one before.
pub open spec fn unescaped(s: Seq<char>) -> Seq<char> {
    let s = replace_all(s, "\\r\\n"@, "  \n"@);
    let s = replace_all(s, "\\n\\n"@, "  \n"@);
    let s = replace_all(s, "\\t"@, "\t"@);
    let s = replace_all(s, "\\n"@, "  \n"@);
    let s = replace_all(s, "\\\""@, "\""@);
    let s = replace_all(s, "\\'"@, "'"@);
    replace_all(s, "&#39;"@, "'"@)
}

/// What [`sanitize`] makes of `s`: first everything encoded is decoded, then
/// markup is escaped, so that no character which decoding brought forth is
/// taken for part of an encoded sequence.
pub open spec fn sanitized(s: Seq<char>) -> Seq<char> {
    escape_markup(unescaped(s))
}

/// Puts a backslash before every markup control character of `text`.
pub fn escape(text: &Vec<char>) -> (r: Vec<char>)
    ensures
        r@ == escape_markup(text@),
{
    let mut out: Vec<char> = Vec::new();
    let mut i: usize = 0;
    while i < text.len()
        invariant
            i <= text.len(),
            out@ == escape_markup(text@.take(i as int)),
        decreases text.len() - i,
    {
        let c = text[i];
        proof {
            assert(text@.take(i + 1).drop_last() =~= text@.take(i as int));
        }
        if markup_control(c) {
            out.push('\\');
        }
        out.push(c);
        proof {
            assert(out@ =~= escape_markup(text@.take(i as int)) + escaped_char(c));
        }
        i += 1;
    }
    proof {
        assert(text@.take(text.len() as int) =~= text@);
    }
    out
}

/// Makes the text of a tracker field safe for the target's markup. To be
/// called once per field: a second pass escapes what the first has escaped.
pub fn sanitize(text: &str) -> (r: String)
    ensures
        r@ == sanitized(text@),
{
    let hard_break = chars_of("  \n");
    let apostrophe = chars_of("'");
    let s = chars_of(text);
    let s = replace(&s, &chars_of("\\r\\n"), &hard_break);
    let s = replace(&s, &chars_of("\\n\\n"), &hard_break);
    let s = replace(&s, &chars_of("\\t"), &chars_of("\t"));
    let s = replace(&s, &chars_of("\\n"), &hard_break);
    let s = replace(&s, &chars_of("\\\""), &chars_of("\""));
    let s = replace(&s, &chars_of("\\'"), &apostrophe);
    let s = replace(&s, &chars_of("&#39;"), &apostrophe);
    string_of(&escape(&s))
}

/// The markup control characters of `s`, in order.
pub open spec fn controls_of(s: Seq<char>) -> Seq<char>
    decreases s.len(),
{
    if s.len() == 0 {
        Seq::empty()
    } else if is_markup_control(s.last()) {
        controls_of(s.drop_last()).push(s.last())
    } else {
        controls_of(s.drop_last())
    }
}

/// Whether every markup control character of `s` stands directly behind a
/// backslash.
pub open spec fn guarded(s: Seq<char>) -> bool {
    forall|i: int|
        0 <= i < s.len() && is_markup_control(#[trigger] s[i]) ==> i > 0 && s[i - 1] == '\\'
}

/// Whether every backslash of `s` stands directly before a markup control
/// character.
pub open spec fn backslashes_guard(s: Seq<char>) -> bool {
    forall|i: int|
        0 <= i < s.len() && #[trigger] s[i] == '\\' ==> i + 1 < s.len() && is_markup_control(
            s[i + 1],
        )
}

/// The markup control characters of two texts put together are those of the
/// first, then those of the second.
pub proof fn lemma_controls_of_add(a: Seq<char>, b: Seq<char>)
    ensures
        controls_of(a + b) == controls_of(a) + controls_of(b),
    decreases b.len(),
{
    if b.len() == 0 {
        assert(a + b =~= a);
        assert(controls_of(a) + controls_of(b) =~= controls_of(a));
    } else {
        assert((a + b).drop_last() =~= a + b.drop_last());
        lemma_controls_of_add(a, b.drop_last());
        if is_markup_control(b.last()) {
            assert(controls_of(a + b) =~= controls_of(a) + controls_of(b));
        }
    }
}

/// A text without markup control characters has none to list.
pub proof fn lemma_controls_of_plain(s: Seq<char>)
    requires
        forall|i: int| 0 <= i < s.len() ==> !is_markup_control(s[i]),
    ensures
        controls_of(s) == Seq::<char>::empty(),
    decreases s.len(),
{
    if s.len() > 0 {
        lemma_controls_of_plain(s.drop_last());
    }
}

/// Escaping adds no markup control character and removes none.
pub proof fn lemma_escape_markup_keeps_controls(s: Seq<char>)
    ensures
        controls_of(escape_markup(s)) == controls_of(s),
    decreases s.len(),
{
    if s.len() > 0 {
        let c = s.last();
        lemma_escape_markup_keeps_controls(s.drop_last());
        lemma_controls_of_add(escape_markup(s.drop_last()), escaped_char(c));
        if is_markup_control(c) {
            lemma_controls_of_plain(seq!['\\']);
            lemma_controls_of_add(seq!['\\'], seq![c]);
            assert(seq!['\\'] + seq![c] =~= escaped_char(c));
            assert(controls_of(seq![c].drop_last()) =~= Seq::<char>::empty());
            assert(seq![c].last() == c);
            assert(controls_of(seq![c]) =~= seq![c]);
            assert(Seq::<char>::empty() + seq![c] =~= seq![c]);
            assert(controls_of(s.drop_last()) + seq![c] =~= controls_of(s.drop_last()).push(c));
        } else {
            lemma_controls_of_plain(seq![c]);
            assert(controls_of(s.drop_last()) + Seq::<char>::empty() =~= controls_of(
                s.drop_last(),
            ));
        }
    }
}

/// In escaped text every markup control character stands directly behind a
/// backslash.
pub proof fn lemma_escape_markup_guarded(s: Seq<char>)
    ensures
        guarded(escape_markup(s)),
    decreases s.len(),
{
    if s.len() > 0 {
        lemma_escape_markup_guarded(s.drop_last());
        let before = escape_markup(s.drop_last());
        let out = escape_markup(s);
        assert forall|i: int| 0 <= i < out.len() && is_markup_control(#[trigger] out[i]) implies i
            > 0 && out[i - 1] == '\\' by {
            if i < before.len() {
                assert(out[i] == before[i]);
                assert(out[i - 1] == before[i - 1]);
            }
        }
    }
}

/// Where the text held no backslash, every backslash of the escaped text
/// stands directly before a markup control character.
pub proof fn lemma_escape_markup_backslashes(s: Seq<char>)
    requires
        !s.contains('\\'),
    ensures
        backslashes_guard(escape_markup(s)),
    decreases s.len(),
{
    if s.len() > 0 {
        assert forall|j: int| 0 <= j < s.drop_last().len() implies s.drop_last()[j] != '\\' by {
            assert(s[j] == s.drop_last()[j]);
            assert(s.contains(s[j]));
        }
        assert(!s.drop_last().contains('\\'));
        lemma_escape_markup_backslashes(s.drop_last());
        let before = escape_markup(s.drop_last());
        let out = escape_markup(s);
        assert(s.contains(s.last()));
        assert forall|i: int| 0 <= i < out.len() && #[trigger] out[i] == '\\' implies i + 1
            < out.len() && is_markup_control(out[i + 1]) by {
            if i < before.len() {
                assert(out[i] == before[i]);
                assert(out[i + 1] == before[i + 1]);
            }
        }
    }
}

/// Two texts in each of which every markup control character stands
/// directly behind a backslash make such a text when put together.
pub proof fn lemma_guarded_add(a: Seq<char>, b: Seq<char>)
    requires
        guarded(a),
        guarded(b),
    ensures
        guarded(a + b),
{
    let both = a + b;
    assert forall|i: int| 0 <= i < both.len() && is_markup_control(#[trigger] both[i]) implies i
        > 0 && both[i - 1] == '\\' by {
        if i < a.len() {
            assert(both[i] == a[i]);
        } else {
            assert(both[i] == b[i - a.len()]);
            assert(i - a.len() > 0);
            assert(both[i - 1] == b[i - a.len() - 1]);
        }
    }
}

/// A replacement whose pattern and whose substitute hold no markup control
/// character adds none to the text and removes none.
pub proof fn lemma_replace_all_keeps_controls(s: Seq<char>, pat: Seq<char>, to: Seq<char>)
    requires
        controls_of(pat) == Seq::<char>::empty(),
        controls_of(to) == Seq::<char>::empty(),
    ensures
        controls_of(replace_all(s, pat, to)) == controls_of(s),
    decreases s.len(),
{
    if pat.len() == 0 || s.len() < pat.len() {
    } else if occurs_at(s, pat, 0) {
        let rest = s.skip(pat.len() as int);
        lemma_replace_all_keeps_controls(rest, pat, to);
        lemma_controls_of_add(to, replace_all(rest, pat, to));
        assert(s =~= pat + rest);
        lemma_controls_of_add(pat, rest);
        assert(Seq::<char>::empty() + controls_of(rest) =~= controls_of(rest));
    } else {
        let rest = s.skip(1);
        lemma_replace_all_keeps_controls(rest, pat, to);
        lemma_controls_of_add(seq![s[0]], replace_all(rest, pat, to));
        assert(s =~= seq![s[0]] + rest);
        lemma_controls_of_add(seq![s[0]], rest);
    }
}

/// One decoding step that is not the one for the apostrophe entity: it
/// keeps the markup control characters, and brings forth no entity.
proof fn lemma_decoding_step(s: Seq<char>, pat: Seq<char>, to: Seq<char>)
    requires
        forall|i: int| 0 <= i < pat.len() ==> !is_markup_control(pat[i]),
        forall|i: int| 0 <= i < to.len() ==> !is_markup_control(to[i]),
        to.len() > 0,
        disjoint(to, "&#39;"@),
        !occurs_in(s, "&#39;"@),
    ensures
        controls_of(replace_all(s, pat, to)) == controls_of(s),
        !occurs_in(replace_all(s, pat, to), "&#39;"@),
{
    reveal_strlit("&#39;");
    lemma_controls_of_plain(pat);
    lemma_controls_of_plain(to);
    lemma_replace_all_keeps_controls(s, pat, to);
    if occurs_in(replace_all(s, pat, to), "&#39;"@) {
        lemma_replace_all_brings_no_occurrence(s, pat, to, "&#39;"@);
    }
}

/// Decoding a text that holds no apostrophe entity keeps its markup control
/// characters: the `#` of that entity is the only one that decoding takes
/// away.
pub proof fn lemma_unescaped_keeps_controls(text: Seq<char>)
    requires
        !occurs_in(text, "&#39;"@),
    ensures
        controls_of(unescaped(text)) == controls_of(text),
{
    reveal_strlit("&#39;");
    reveal_strlit("\\r\\n");
    reveal_strlit("\\n\\n");
    reveal_strlit("\\t");
    reveal_strlit("\\n");
    reveal_strlit("\\\"");
    reveal_strlit("\\'");
    reveal_strlit("  \n");
    reveal_strlit("\t");
    reveal_strlit("\"");
    reveal_strlit("'");
    let s1 = replace_all(text, "\\r\\n"@, "  \n"@);
    let s2 = replace_all(s1, "\\n\\n"@, "  \n"@);
    let s3 = replace_all(s2, "\\t"@, "\t"@);
    let s4 = replace_all(s3, "\\n"@, "  \n"@);
    let s5 = replace_all(s4, "\\\""@, "\""@);
    let s6 = replace_all(s5, "\\'"@, "'"@);
    lemma_decoding_step(text, "\\r\\n"@, "  \n"@);
    lemma_decoding_step(s1, "\\n\\n"@, "  \n"@);
    lemma_decoding_step(s2, "\\t"@, "\t"@);
    lemma_decoding_step(s3, "\\n"@, "  \n"@);
    lemma_decoding_step(s4, "\\\""@, "\""@);
    lemma_decoding_step(s5, "\\'"@, "'"@);
    lemma_replace_all_absent(s6, "&#39;"@, "'"@);
}

/// In sanitized text every markup control character stands directly behind
/// a backslash, whatever the text was.
pub proof fn lemma_sanitized_guarded(text: Seq<char>)
    ensures
        guarded(sanitized(text)),
{
    lemma_escape_markup_guarded(unescaped(text));
}

/// What sanitizing does to the markup control characters of a text that
/// holds no apostrophe entity and of which decoding leaves no backslash:
/// the sanitized text holds the same markup control characters in the same
/// order, each directly behind a backslash, and it holds no backslash but
/// directly before one of them.
///
/// The two conditions leave out the texts of which this cannot hold. The
/// `#` of an apostrophe entity is decoded away, and a backslash that
/// decoding leaves is handed on as it is.
pub proof fn lemma_sanitized_escapes_controls(text: Seq<char>)
    requires
        !occurs_in(text, "&#39;"@),
        !unescaped(text).contains('\\'),
    ensures
        controls_of(sanitized(text)) == controls_of(text),
        guarded(sanitized(text)),
        backslashes_guard(sanitized(text)),
{
    lemma_unescaped_keeps_controls(text);
    lemma_escape_markup_keeps_controls(unescaped(text));
    lemma_escape_markup_guarded(unescaped(text));
    lemma_escape_markup_backslashes(unescaped(text));
}

} // verus!
