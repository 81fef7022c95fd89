//! Removing `//` line comments from JSON-like text.
use vstd::prelude::*;

verus! {

/// `s` with every line comment removed: from each `//` to the end of its
/// line (the line ending itself is kept).
pub open spec fn spec_strip_line_comments(s: Seq<char>) -> Seq<char>
    decreases s.len(), 0int,
{
    if s.len() == 0 {
        Seq::empty()
    } else if s.len() >= 2 && s[0] == '/' && s[1] == '/' {
        spec_skip_comment(s.subrange(2, s.len() as int))
    } else {
        seq![s[0]] + spec_strip_line_comments(s.drop_first())
    }
}

/// The rest of a comment is dropped up to the next line ending.
pub open spec fn spec_skip_comment(s: Seq<char>) -> Seq<char>
    decreases s.len(), 1int,
{
    if s.len() == 0 {
        Seq::empty()
    } else if s[0] == '\n' {
        spec_strip_line_comments(s)
    } else {
        spec_skip_comment(s.drop_first())
    }
}

/// `s` holds no `//`.
pub open spec fn has_no_comment_start(s: Seq<char>) -> bool {
    forall|i: int| 0 <= i < s.len() - 1 ==> !(#[trigger] s[i] == '/' && s[i + 1] == '/')
}

/// Text without `//` is left as it is.
proof fn lemma_strip_without_comments(s: Seq<char>)
    requires
        has_no_comment_start(s),
    ensures
        spec_strip_line_comments(s) == s,
    decreases s.len(),
{
    if s.len() > 0 {
        let rest = s.drop_first();
        assert forall|i: int| 0 <= i < rest.len() - 1 implies !(#[trigger] rest[i] == '/' && rest[i + 1]
            == '/') by {
            assert(rest[i] == s[i + 1] && rest[i + 1] == s[i + 2]);
        }
        if s.len() >= 2 {
            assert(!(s[0] == '/' && s[1] == '/'));
        }
        lemma_strip_without_comments(rest);
        assert(seq![s[0]] + rest == s);
    }
}

/// What is left after removing comments holds no `//`, and starts with `/`
/// only where the text did.
proof fn lemma_strip_leaves_no_comment(s: Seq<char>)
    ensures
        has_no_comment_start(spec_strip_line_comments(s)),
        spec_strip_line_comments(s).len() > 0 && spec_strip_line_comments(s)[0] == '/' ==> s.len() > 0
            && s[0] == '/',
    decreases s.len(), 0int,
{
    if s.len() > 0 {
        if s.len() >= 2 && s[0] == '/' && s[1] == '/' {
            lemma_skip_leaves_no_comment(s.subrange(2, s.len() as int));
        } else {
            let rest = s.drop_first();
            lemma_strip_leaves_no_comment(rest);
            let r = spec_strip_line_comments(rest);
            let t = seq![s[0]] + r;
            assert(spec_strip_line_comments(s) == t);
            assert forall|i: int| 0 <= i < t.len() - 1 implies !(#[trigger] t[i] == '/' && t[i + 1] == '/') by {
                if i > 0 {
                    assert(t[i] == r[i - 1] && t[i + 1] == r[i]);
                } else if s[0] == '/' && r.len() > 0 && r[0] == '/' {
                    assert(rest[0] == s[1]);
                }
            }
        }
    }
}

/// What is left of a comment's rest is empty or starts at the line ending,
/// and holds no `//`.
proof fn lemma_skip_leaves_no_comment(s: Seq<char>)
    ensures
        has_no_comment_start(spec_skip_comment(s)),
        spec_skip_comment(s).len() > 0 ==> spec_skip_comment(s)[0] == '\n',
    decreases s.len(), 1int,
{
    if s.len() > 0 {
        if s[0] == '\n' {
            lemma_strip_leaves_no_comment(s);
            assert(spec_strip_line_comments(s) == seq![s[0]] + spec_strip_line_comments(s.drop_first()));
        } else {
            lemma_skip_leaves_no_comment(s.drop_first());
        }
    }
}

/// Law: removing comments a second time changes nothing.
pub proof fn lemma_strip_idempotent(s: Seq<char>)
    ensures
        spec_strip_line_comments(spec_strip_line_comments(s)) == spec_strip_line_comments(s),
{
    lemma_strip_leaves_no_comment(s);
    lemma_strip_without_comments(spec_strip_line_comments(s));
}

/// The part of a line before its first `//` (the whole line where there is
/// none).
pub open spec fn spec_before_comment(line: Seq<char>) -> Seq<char>
    decreases line.len(),
{
    if line.len() == 0 {
        Seq::empty()
    } else if line.len() >= 2 && line[0] == '/' && line[1] == '/' {
        Seq::empty()
    } else {
        seq![line[0]] + spec_before_comment(line.drop_first())
    }
}

/// `s` holds no line ending.
pub open spec fn is_single_line(s: Seq<char>) -> bool {
    forall|i: int| 0 <= i < s.len() ==> #[trigger] s[i] != '\n'
}

/// The number of line endings in `s`.
pub open spec fn newline_count(s: Seq<char>) -> nat
    decreases s.len(),
{
    if s.len() == 0 {
        0
    } else {
        (if s[0] == '\n' { 1nat } else { 0nat }) + newline_count(s.drop_first())
    }
}

/// The rest of a comment without a line ending is dropped entirely.
proof fn lemma_skip_single_line(t: Seq<char>)
    requires
        is_single_line(t),
    ensures
        spec_skip_comment(t) == Seq::<char>::empty(),
    decreases t.len(),
{
    if t.len() > 0 {
        assert(t[0] != '\n');
        let rest = t.drop_first();
        assert forall|i: int| 0 <= i < rest.len() implies #[trigger] rest[i] != '\n' by {
            assert(rest[i] == t[i + 1]);
        }
        lemma_skip_single_line(rest);
    }
}

/// Law: a last line (one without a line ending) keeps what comes before its
/// first `//`.
pub proof fn lemma_strip_single_line(line: Seq<char>)
    requires
        is_single_line(line),
    ensures
        spec_strip_line_comments(line) == spec_before_comment(line),
    decreases line.len(),
{
    if line.len() > 0 {
        if line.len() >= 2 && line[0] == '/' && line[1] == '/' {
            let t = line.subrange(2, line.len() as int);
            assert forall|i: int| 0 <= i < t.len() implies #[trigger] t[i] != '\n' by {
                assert(t[i] == line[i + 2]);
            }
            lemma_skip_single_line(t);
        } else {
            let rest = line.drop_first();
            assert forall|i: int| 0 <= i < rest.len() implies #[trigger] rest[i] != '\n' by {
                assert(rest[i] == line[i + 1]);
            }
            lemma_strip_single_line(rest);
        }
    }
}

/// The rest of a comment is dropped up to its line ending, which is kept.
proof fn lemma_skip_to_line_end(t: Seq<char>, rest: Seq<char>)
    requires
        is_single_line(t),
    ensures
        spec_skip_comment(t + seq!['\n'] + rest) == seq!['\n'] + spec_strip_line_comments(rest),
    decreases t.len(),
{
    let s = t + seq!['\n'] + rest;
    if t.len() == 0 {
        assert(s == seq!['\n'] + rest);
        assert(s[0] == '\n');
        assert(s.drop_first() == rest);
        assert(spec_skip_comment(s) == spec_strip_line_comments(s));
        assert(spec_strip_line_comments(s) == seq![s[0]] + spec_strip_line_comments(s.drop_first()));
    } else {
        assert(s[0] == t[0]);
        assert(t[0] != '\n');
        let t2 = t.drop_first();
        assert forall|i: int| 0 <= i < t2.len() implies #[trigger] t2[i] != '\n' by {
            assert(t2[i] == t[i + 1]);
        }
        assert(s.drop_first() == t2 + seq!['\n'] + rest);
        lemma_skip_to_line_end(t2, rest);
    }
}

/// Law: removing comments works line by line: a line followed by a line
/// ending keeps what comes before its first `//`, then the line ending,
/// then the rest of the text with its comments removed.
pub proof fn lemma_strip_line_by_line(line: Seq<char>, rest: Seq<char>)
    requires
        is_single_line(line),
    ensures
        spec_strip_line_comments(line + seq!['\n'] + rest) == spec_before_comment(line) + seq!['\n']
            + spec_strip_line_comments(rest),
    decreases line.len(),
{
    let s = line + seq!['\n'] + rest;
    if line.len() == 0 {
        assert(s == seq!['\n'] + rest);
        assert(s[0] == '\n');
        assert(s.drop_first() == rest);
        assert(spec_before_comment(line) == Seq::<char>::empty());
        assert(Seq::<char>::empty() + seq!['\n'] + spec_strip_line_comments(rest) == seq!['\n']
            + spec_strip_line_comments(rest));
    } else if line.len() >= 2 && line[0] == '/' && line[1] == '/' {
        assert(s[0] == '/' && s[1] == '/');
        let t = line.subrange(2, line.len() as int);
        assert forall|i: int| 0 <= i < t.len() implies #[trigger] t[i] != '\n' by {
            assert(t[i] == line[i + 2]);
        }
        assert(s.subrange(2, s.len() as int) == t + seq!['\n'] + rest);
        lemma_skip_to_line_end(t, rest);
        assert(Seq::<char>::empty() + seq!['\n'] + spec_strip_line_comments(rest) == seq!['\n']
            + spec_strip_line_comments(rest));
    } else {
        assert(s[0] == line[0]);
        assert(line[0] != '\n');
        if line.len() == 1 {
            assert(s[1] == '\n');
        } else {
            assert(s[1] == line[1]);
        }
        let l2 = line.drop_first();
        assert forall|i: int| 0 <= i < l2.len() implies #[trigger] l2[i] != '\n' by {
            assert(l2[i] == line[i + 1]);
        }
        assert(s.drop_first() == l2 + seq!['\n'] + rest);
        lemma_strip_line_by_line(l2, rest);
        assert(seq![line[0]] + (spec_before_comment(l2) + seq!['\n'] + spec_strip_line_comments(rest))
            == (seq![line[0]] + spec_before_comment(l2)) + seq!['\n'] + spec_strip_line_comments(rest));
    }
}

/// Law: removing comments keeps every line ending.
pub proof fn lemma_strip_keeps_newlines(s: Seq<char>)
    ensures
        newline_count(spec_strip_line_comments(s)) == newline_count(s),
    decreases s.len(), 0int,
{
    if s.len() > 0 {
        if s.len() >= 2 && s[0] == '/' && s[1] == '/' {
            let t = s.subrange(2, s.len() as int);
            assert(s.drop_first().drop_first() == t);
            assert(newline_count(s) == newline_count(s.drop_first()));
            assert(s.drop_first()[0] == '/');
            assert(newline_count(s.drop_first()) == newline_count(t));
            lemma_skip_keeps_newlines(t);
        } else {
            let rest = s.drop_first();
            lemma_strip_keeps_newlines(rest);
            let r = spec_strip_line_comments(rest);
            let out = seq![s[0]] + r;
            assert(out[0] == s[0]);
            assert(out.drop_first() == r);
        }
    }
}

proof fn lemma_skip_keeps_newlines(t: Seq<char>)
    ensures
        newline_count(spec_skip_comment(t)) == newline_count(t),
    decreases t.len(), 1int,
{
    if t.len() > 0 {
        if t[0] == '\n' {
            lemma_strip_keeps_newlines(t);
        } else {
            lemma_skip_keeps_newlines(t.drop_first());
        }
    }
}

/// What `regex::Regex::new(pattern)` followed by `replace_all(haystack,
/// replacement)` gives: `None` where the pattern does not compile.
pub uninterp spec fn regex_replace_all(
    pattern: Seq<char>,
    haystack: Seq<char>,
    replacement: Seq<char>,
) -> Option<Seq<char>>;

/// Compiles `pattern` with `regex::Regex::new` and replaces every
/// non-overlapping match in `haystack` with `replacement`
/// (`Regex::replace_all`). The result is named, not spelled out, except for
/// one pattern: `//.*` is a valid pattern, and since `.` matches any
/// character but `\n` and `*` is greedy, replacing its matches with nothing
/// removes each `//` and the rest of its line.
#[verifier::external_body]
fn regex_replace_all_str(pattern: &str, haystack: &str, replacement: &str) -> (r: Option<String>)
    ensures
        r is Some <==> regex_replace_all(pattern@, haystack@, replacement@) is Some,
        r is Some ==> regex_replace_all(pattern@, haystack@, replacement@) == Some(r->0@),
        pattern@ == "//.*"@ && replacement@ == ""@ ==> r is Some && r->0@
            == spec_strip_line_comments(haystack@),
{
    match regex::Regex::new(pattern) {
        Ok(re) => Some(re.replace_all(haystack, replacement).into_owned()),
        Err(_) => None,
    }
}

/// Removes `//` line comments from `input`, so that JSON files may carry
/// comments.
pub fn strip_json_line_comments(input: &str) -> (output: String)
    ensures
        output@ == spec_strip_line_comments(input@),
{
    match regex_replace_all_str("//.*", input, "") {
        Some(s) => s,
        None => {
            assert(false);
            String::new()
        },
    }
}

} // verus!
