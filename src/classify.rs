//! Text heuristics: whether a request is about code, whether it asks to go on,
//! and the removal of meta-commentary openers from a reply.

use vstd::prelude::*;
use crate::text::{
    chars_of, contains, find, is_space, is_space_spec, occurs_at, string_of, to_lower, lower_of,
    trim_chars, trim_spec,
};

verus! {

/// Some keyword of `ks` occurs in `s`.
pub open spec fn any_keyword(s: Seq<char>, ks: Seq<&str>) -> bool {
    exists|i: int| 0 <= i < ks.len() && contains(s, ks[i]@)
}

/// Words that mark a coding request, matched against the lower-cased text.
pub open spec fn code_keywords() -> Seq<&'static str> {
    seq![
        "code", "function", "program", "script", "algorithm", "implement", "programming",
        "developer", "software", "class", "method", "variable", "compile", "debug", "syntax",
        "library", "framework", "api", "database", "sql", "html", "css", "javascript", "python",
        "java", "c++", "rust", "go", "typescript", "php", "ruby", "swift", "kotlin", "scala",
        "perl", "bash", "shell",
    ]
}

/// Syntax that marks a coding request, matched against the text as it is.
pub open spec fn code_markers() -> Seq<&'static str> {
    seq![
        "```", "`", "def ", "function ", "class ", "import ", "from ", "#include",
        "public static", "fn ",
    ]
}

/// Words that mark a request to continue, matched against the lower-cased text.
pub open spec fn continuation_keywords() -> Seq<&'static str> {
    seq![
        "continue", "go on", "proceed", "keep going", "next", "more", "further", "expand",
        "elaborate", "additional", "furthermore", "moreover", "also", "besides", "additionally",
        "what else", "tell me more", "and then", "after that", "what next", "what follows",
        "next step", "then what",
    ]
}

/// A request is about code when its lower-cased text holds a code keyword or
/// its text holds a code marker.
pub open spec fn is_coding_spec(content: Seq<char>) -> bool {
    any_keyword(lower_of(content), code_keywords()) || any_keyword(content, code_markers())
}

/// The number of white-space separated words of `s`.
pub open spec fn word_count(s: Seq<char>) -> nat
    decreases s.len(),
{
    if s.len() == 0 {
        0
    } else {
        word_count(s.drop_last()) + if !is_space_spec(s.last()) && (s.len() == 1 || is_space_spec(
            s[s.len() - 2],
        )) {
            1nat
        } else {
            0nat
        }
    }
}

/// A request asks to continue when its lower-cased text holds a continuation
/// keyword or it has fewer than five words.
pub open spec fn is_continuation_spec(content: Seq<char>) -> bool {
    any_keyword(lower_of(content), continuation_keywords()) || word_count(trim_spec(content)) < 5
}

/// Whether some keyword of `ks` occurs in `s`.
pub fn contains_any(s: &Vec<char>, ks: &Vec<&str>) -> (r: bool)
    ensures
        r == any_keyword(s@, ks@),
{
    let mut i: usize = 0;
    while i < ks.len()
        invariant
            i <= ks@.len(),
            forall|j: int| 0 <= j < i ==> !contains(s@, ks@[j]@),
        decreases ks@.len() - i,
    {
        let k = chars_of(ks[i]);
        if crate::text::contains_exec(s, &k) {
            return true;
        }
        i = i + 1;
    }
    false
}

/// Whether a message asks for code: a code keyword in its lower-cased text,
/// or a code fence, backtick or characteristic syntax in the text itself.
pub fn is_coding_request(content: &str) -> (r: bool)
    ensures
        r == is_coding_spec(content@),
{
    let lower = to_lower(content);
    let keywords = vec![
        "code", "function", "program", "script", "algorithm", "implement", "programming",
        "developer", "software", "class", "method", "variable", "compile", "debug", "syntax",
        "library", "framework", "api", "database", "sql", "html", "css", "javascript", "python",
        "java", "c++", "rust", "go", "typescript", "php", "ruby", "swift", "kotlin", "scala",
        "perl", "bash", "shell",
    ];
    assert(keywords@ =~= code_keywords());
    if contains_any(&chars_of(lower.as_str()), &keywords) {
        return true;
    }
    let markers = vec![
        "```", "`", "def ", "function ", "class ", "import ", "from ", "#include",
        "public static", "fn ",
    ];
    assert(markers@ =~= code_markers());
    contains_any(&chars_of(content), &markers)
}

/// The number of white-space separated words of `s`.
pub fn count_words(s: &Vec<char>) -> (r: usize)
    ensures
        r == word_count(s@),
{
    let mut n: usize = 0;
    let mut i: usize = 0;
    while i < s.len()
        invariant
            i <= s@.len(),
            n == word_count(s@.subrange(0, i as int)),
            n <= i,
        decreases s@.len() - i,
    {
        let ghost pre = s@.subrange(0, i as int);
        let ghost next = s@.subrange(0, i + 1);
        assert(next.drop_last() =~= pre);
        if !is_space(s[i]) && (i == 0 || is_space(s[i - 1])) {
            n = n + 1;
        }
        i = i + 1;
    }
    assert(s@.subrange(0, s@.len() as int) =~= s@);
    n
}

/// Whether a message asks to continue: a continuation keyword in its
/// lower-cased text, or fewer than five words.
pub fn is_continuation_request(content: &str) -> (r: bool)
    ensures
        r == is_continuation_spec(content@),
{
    let lower = to_lower(content);
    let keywords = vec![
        "continue", "go on", "proceed", "keep going", "next", "more", "further", "expand",
        "elaborate", "additional", "furthermore", "moreover", "also", "besides", "additionally",
        "what else", "tell me more", "and then", "after that", "what next", "what follows",
        "next step", "then what",
    ];
    assert(keywords@ =~= continuation_keywords());
    if contains_any(&chars_of(lower.as_str()), &keywords) {
        return true;
    }
    count_words(&trim_chars(&chars_of(content))) < 5
}

/// The openers of meta-commentary that a reply is cleaned of, in the order
/// in which they are tried.
pub open spec fn meta_openers() -> Seq<&'static str> {
    seq![
        "Let me think about this", "I'll help you with", "I'll assist you with", "I'll provide",
        "Here's my response", "Let me respond to",
    ]
}

/// The number of bytes that `c` takes in UTF-8.
pub open spec fn utf8_width(c: char) -> nat {
    if (c as u32) < 0x80 {
        1
    } else if (c as u32) < 0x800 {
        2
    } else if (c as u32) < 0x10000 {
        3
    } else {
        4
    }
}

/// The number of bytes that `s` takes in UTF-8.
pub open spec fn utf8_len(s: Seq<char>) -> nat
    decreases s.len(),
{
    if s.len() == 0 {
        0
    } else {
        utf8_len(s.drop_last()) + utf8_width(s.last())
    }
}

/// `p` occurs in `s` at `i` and nowhere before.
pub open spec fn first_at(s: Seq<char>, p: Seq<char>, i: int) -> bool {
    occurs_at(s, p, i) && forall|j: int| 0 <= j < i ==> !occurs_at(s, p, j)
}

/// `j` is the first line break of `s` at or after `i`.
pub open spec fn newline_at(s: Seq<char>, i: int, j: int) -> bool {
    i <= j < s.len() && s[j] == '\n' && forall|k: int| i <= k < j ==> s[k] != '\n'
}

/// The opener cut: where `p` first occurs within the first 50 bytes of `s`
/// and a line break follows it, `s` after that line break; else `s`.
pub open spec fn strip_opener(s: Seq<char>, p: Seq<char>) -> Seq<char> {
    if exists|i: int| first_at(s, p, i) {
        let i = choose|i: int| first_at(s, p, i);
        if utf8_len(s.subrange(0, i)) < 50 && exists|j: int| newline_at(s, i, j) {
            let j = choose|j: int| newline_at(s, i, j);
            s.subrange(j + 1, s.len() as int)
        } else {
            s
        }
    } else {
        s
    }
}

/// `s` with the opener cut applied for each of `ps` in turn.
pub open spec fn strip_openers(s: Seq<char>, ps: Seq<&str>) -> Seq<char>
    decreases ps.len(),
{
    if ps.len() == 0 {
        s
    } else {
        strip_openers(strip_opener(s, ps[0]@), ps.drop_first())
    }
}

/// Whether the first `i` characters of `s` take fewer than 50 bytes.
fn within_head(s: &Vec<char>, i: usize) -> (r: bool)
    requires
        i <= s@.len(),
    ensures
        r == (utf8_len(s@.subrange(0, i as int)) < 50),
{
    let mut n: usize = 0;
    let mut k: usize = 0;
    while k < i
        invariant
            k <= i <= s@.len(),
            n == utf8_len(s@.subrange(0, k as int)),
            n < 50,
        decreases i - k,
    {
        assert(s@.subrange(0, k + 1).drop_last() =~= s@.subrange(0, k as int));
        let c = s[k];
        let w: usize = if (c as u32) < 0x80 {
            1
        } else if (c as u32) < 0x800 {
            2
        } else if (c as u32) < 0x10000 {
            3
        } else {
            4
        };
        n = n + w;
        k = k + 1;
        if n >= 50 {
            proof { lemma_utf8_len_grows(s@, k as int, i as int); }
            return false;
        }
    }
    true
}

proof fn lemma_utf8_len_grows(s: Seq<char>, a: int, b: int)
    requires
        0 <= a <= b <= s.len(),
    ensures
        utf8_len(s.subrange(0, a)) <= utf8_len(s.subrange(0, b)),
    decreases b - a,
{
    if a < b {
        lemma_utf8_len_grows(s, a, b - 1);
        assert(s.subrange(0, b).drop_last() =~= s.subrange(0, b - 1));
    }
}

/// The opener cut of `s` for `p`.
fn cut_opener(s: Vec<char>, p: &str) -> (r: Vec<char>)
    ensures
        r@ == strip_opener(s@, p@),
{
    let pc = chars_of(p);
    match find(&s, &pc) {
        Some(i) => {
            assert(first_at(s@, p@, i as int));
            let ghost ci = choose|i: int| first_at(s@, p@, i);
            assert(ci == i as int) by {
                if ci < i {
                    assert(!occurs_at(s@, p@, ci));
                } else if ci > i {
                    assert(!occurs_at(s@, p@, i as int));
                }
            }
            if !within_head(&s, i) {
                return s;
            }
            let mut j: usize = i;
            while j < s.len() && s[j] != '\n'
                invariant
                    i <= j <= s@.len(),
                    forall|k: int| i <= k < j ==> s@[k] != '\n',
                decreases s@.len() - j,
            {
                j = j + 1;
            }
            if j == s.len() {
                assert forall|x: int| !newline_at(s@, i as int, x) by {
                    if newline_at(s@, i as int, x) {
                        assert(s@[x] == '\n');
                    }
                }
                return s;
            }
            assert(newline_at(s@, i as int, j as int));
            let ghost cj = choose|x: int| newline_at(s@, i as int, x);
            assert(cj == j as int) by {
                if cj < j {
                    assert(s@[cj] != '\n');
                } else if cj > j {
                    assert(s@[j as int] != '\n');
                }
            }
            let mut r: Vec<char> = Vec::new();
            let mut k: usize = j + 1;
            while k < s.len()
                invariant
                    j + 1 <= k <= s@.len(),
                    r@ == s@.subrange(j + 1, k as int),
                decreases s@.len() - k,
            {
                r.push(s[k]);
                assert(r@ =~= s@.subrange(j + 1, k + 1));
                k = k + 1;
            }
            r
        },
        None => {
            assert(!exists|i: int| first_at(s@, p@, i));
            s
        },
    }
}

/// A reply with its meta-commentary openers cut (each opener that starts
/// within the first 50 bytes, through the end of its line) and white space
/// trimmed.
pub fn clean_response_text(response: &str) -> (r: String)
    ensures
        r@ == trim_spec(strip_openers(response@, meta_openers())),
{
    let openers = vec![
        "Let me think about this", "I'll help you with", "I'll assist you with", "I'll provide",
        "Here's my response", "Let me respond to",
    ];
    assert(openers@ =~= meta_openers());
    let mut cleaned = chars_of(response);
    let mut i: usize = 0;
    assert(openers@.subrange(0, openers@.len() as int) =~= openers@);
    while i < openers.len()
        invariant
            i <= openers@.len(),
            openers@ == meta_openers(),
            strip_openers(response@, meta_openers()) == strip_openers(
                cleaned@,
                openers@.subrange(i as int, openers@.len() as int),
            ),
        decreases openers@.len() - i,
    {
        let ghost rest = openers@.subrange(i as int, openers@.len() as int);
        assert(rest.drop_first() =~= openers@.subrange(i + 1, openers@.len() as int));
        cleaned = cut_opener(cleaned, openers[i]);
        i = i + 1;
    }
    string_of(&trim_chars(&cleaned))
}

} // verus!
