//! The reasoning phase's text: fragments gathered from the stream, then framed
//! by exactly one pair of think delimiters.

use vstd::prelude::*;
use crate::outbound::push_str;
use crate::stream::{line_fragment, process_stream};
use crate::text::{chars_of, contains, occurs_at, remove_all, remove_all_exec, string_of, trim_chars, trim_spec};

verus! {

/// The opening think delimiter.
pub open spec fn think_open() -> Seq<char> {
    "<think>"@
}

/// The closing think delimiter.
pub open spec fn think_close() -> Seq<char> {
    "</think>"@
}

/// One removal pass: every opening delimiter, then every closing one.
pub open spec fn strip_pass(s: Seq<char>) -> Seq<char> {
    remove_all(remove_all(s, think_open()), think_close())
}

/// `s` with removal passes repeated until one leaves it unchanged, so that
/// no delimiter is left, not even one that a pass joined together.
pub open spec fn clear_delimiters(s: Seq<char>) -> Seq<char>
    decreases s.len(),
{
    if strip_pass(s).len() < s.len() {
        clear_delimiters(strip_pass(s))
    } else {
        strip_pass(s)
    }
}

/// The body of a reasoning text: trimmed, then cleared of delimiters.
pub open spec fn think_body(raw: Seq<char>) -> Seq<char> {
    clear_delimiters(trim_spec(raw))
}

/// A reasoning text framed by one pair of delimiters, each on a line of its own.
pub open spec fn think_wrapped(raw: Seq<char>) -> Seq<char> {
    "<think>\n"@ + think_body(raw) + "\n</think>"@
}

/// Frames a raw reasoning text: trims it, takes out any delimiters that it
/// already holds, and wraps the rest in a single pair.
pub fn wrap_reasoning(raw: &str) -> (r: String)
    ensures
        r@ == think_wrapped(raw@),
        !contains(think_body(raw@), think_open()),
        !contains(think_body(raw@), think_close()),
{
    wrap_reasoning_chars(&chars_of(raw))
}

/// Frames a raw reasoning text given as characters.
pub fn wrap_reasoning_chars(raw: &Vec<char>) -> (r: String)
    ensures
        r@ == think_wrapped(raw@),
        !contains(think_body(raw@), think_open()),
        !contains(think_body(raw@), think_close()),
{
    let trimmed = trim_chars(raw);
    proof {
        reveal_strlit("<think>");
        reveal_strlit("</think>");
    }
    let open = chars_of("<think>");
    let close = chars_of("</think>");
    let mut cur = trimmed;
    loop
        invariant
            open@ == think_open(),
            close@ == think_close(),
            open@.len() > 0,
            close@.len() > 0,
            clear_delimiters(cur@) == think_body(raw@),
        ensures
            cur@ == think_body(raw@),
        decreases cur@.len(),
    {
        let no_open = remove_all_exec(&cur, &open);
        let next = remove_all_exec(&no_open, &close);
        if next.len() < cur.len() {
            cur = next;
        } else {
            proof { lemma_pass_fixed(cur@); }
            break;
        }
    }
    let body = cur;
    proof { lemma_delimiters_cleared(trim_spec(raw@)); }
    let mut v: Vec<char> = Vec::new();
    push_str(&mut v, "<think>\n");
    let mut b = body;
    v.append(&mut b);
    push_str(&mut v, "\n</think>");
    assert(v@ =~= think_wrapped(raw@));
    string_of(&v)
}

/// The text that a sequence of streamed lines carries, fragment after fragment.
pub open spec fn gathered(lines: Seq<Seq<char>>) -> Seq<char>
    decreases lines.len(),
{
    if lines.len() == 0 {
        Seq::empty()
    } else {
        gathered(lines.drop_last()) + match line_fragment(lines.last()) {
            Some(f) => f,
            None => Seq::empty(),
        }
    }
}

/// Adds the fragment that one streamed line carries, if any, to `acc`.
pub fn gather_line(acc: &mut Vec<char>, line: &str)
    ensures
        final(acc)@ == old(acc)@ + match line_fragment(line@) {
            Some(f) => f,
            None => Seq::empty(),
        },
{
    match process_stream(line) {
        Some(f) => {
            push_str(acc, f.as_str());
        },
        None => {
            assert(acc@ + Seq::<char>::empty() =~= acc@);
        },
    }
}

/// The reasoning text of a whole streamed reply, framed.
pub fn reasoning_from_lines(lines: &Vec<String>) -> (r: String)
    ensures
        r@ == think_wrapped(gathered(lines@.map_values(|l: String| l@))),
{
    let mut acc: Vec<char> = Vec::new();
    let mut i: usize = 0;
    let ghost views = lines@.map_values(|l: String| l@);
    while i < lines.len()
        invariant
            i <= lines@.len(),
            views == lines@.map_values(|l: String| l@),
            acc@ == gathered(views.subrange(0, i as int)),
        decreases lines@.len() - i,
    {
        assert(views.subrange(0, i + 1).drop_last() =~= views.subrange(0, i as int));
        gather_line(&mut acc, lines[i].as_str());
        i = i + 1;
    }
    assert(views.subrange(0, lines@.len() as int) =~= views);
    wrap_reasoning_chars(&acc)
}

proof fn lemma_remove_len(s: Seq<char>, p: Seq<char>)
    requires
        p.len() > 0,
    ensures
        remove_all(s, p).len() <= s.len(),
        contains(s, p) ==> remove_all(s, p).len() < s.len(),
    decreases s.len(),
{
    if s.len() >= p.len() {
        let t = s.drop_first();
        lemma_remove_len(t, p);
        lemma_remove_len(s.subrange(p.len() as int, s.len() as int), p);
        if contains(s, p) && s.subrange(0, p.len() as int) != p {
            let i = choose|i: int| occurs_at(s, p, i);
            assert(i != 0);
            assert(t.subrange(i - 1, i - 1 + p.len()) =~= s.subrange(i, i + p.len()));
            assert(occurs_at(t, p, i - 1));
        }
    } else {
        if contains(s, p) {
            let i = choose|i: int| occurs_at(s, p, i);
        }
    }
}

/// A pass that does not shorten its input leaves it as it is, and the input
/// holds no delimiter.
proof fn lemma_pass_fixed(s: Seq<char>)
    requires
        strip_pass(s).len() >= s.len(),
    ensures
        clear_delimiters(s) == strip_pass(s),
        strip_pass(s) == s,
        !contains(s, think_open()),
        !contains(s, think_close()),
{
    reveal_strlit("<think>");
    reveal_strlit("</think>");
    let u = remove_all(s, think_open());
    lemma_remove_len(s, think_open());
    lemma_remove_len(u, think_close());
    lemma_remove_absent(s, think_open());
    lemma_remove_absent(u, think_close());
}

/// Clearing leaves no delimiter.
proof fn lemma_delimiters_cleared(s: Seq<char>)
    ensures
        !contains(clear_delimiters(s), think_open()),
        !contains(clear_delimiters(s), think_close()),
    decreases s.len(),
{
    if strip_pass(s).len() < s.len() {
        lemma_delimiters_cleared(strip_pass(s));
    } else {
        lemma_pass_fixed(s);
    }
}

/// The body of every reasoning text holds no delimiter, so the framed text
/// has exactly the one pair that frames it around the body.
pub proof fn lemma_body_has_no_delimiter(raw: Seq<char>)
    ensures
        !contains(think_body(raw), think_open()),
        !contains(think_body(raw), think_close()),
        think_wrapped(raw) == "<think>\n"@ + think_body(raw) + "\n</think>"@,
{
    lemma_delimiters_cleared(trim_spec(raw));
}

proof fn lemma_remove_absent(s: Seq<char>, p: Seq<char>)
    requires
        p.len() > 0,
        !contains(s, p),
    ensures
        remove_all(s, p) == s,
    decreases s.len(),
{
    if s.len() >= p.len() {
        assert(!occurs_at(s, p, 0));
        let t = s.drop_first();
        assert forall|i: int| !occurs_at(t, p, i) by {
            if occurs_at(t, p, i) {
                assert(s.subrange(i + 1, i + 1 + p.len()) =~= t.subrange(i, i + p.len()));
                assert(occurs_at(s, p, i + 1));
            }
        }
        lemma_remove_absent(t, p);
        assert(s =~= seq![s[0]] + t);
    }
}

proof fn lemma_remove_trailing(x: Seq<char>, q: Seq<char>)
    requires
        q.len() > 0,
        forall|i: int| 0 <= i < x.len() ==> !occurs_at(x + q, q, i),
    ensures
        remove_all(x + q, q) == x,
    decreases x.len(),
{
    let s = x + q;
    if x.len() == 0 {
        assert(s =~= q);
        assert(s.subrange(0, q.len() as int) =~= q);
        assert(s.subrange(q.len() as int, s.len() as int) =~= Seq::<char>::empty());
        assert(remove_all(s, q) == remove_all(s.subrange(q.len() as int, s.len() as int), q));
        assert(remove_all(Seq::<char>::empty(), q) == Seq::<char>::empty());
        assert(x =~= Seq::<char>::empty());
    } else {
        assert(!occurs_at(s, q, 0));
        let t = x.drop_first();
        assert(s.drop_first() =~= t + q);
        assert forall|i: int| 0 <= i < t.len() implies !occurs_at(t + q, q, i) by {
            if occurs_at(t + q, q, i) {
                assert(s.subrange(i + 1, i + 1 + q.len()) =~= (t + q).subrange(i, i + q.len()));
                assert(occurs_at(s, q, i + 1));
            }
        }
        lemma_remove_trailing(t, q);
        assert(s.subrange(0, q.len() as int) != q);
        assert(s[0] == x[0]);
        assert(remove_all(s, q) == seq![s[0]] + remove_all(s.drop_first(), q));
        assert(x =~= seq![x[0]] + t);
    }
}

proof fn lemma_framed_trim(x: Seq<char>)
    ensures
        trim_spec(think_open() + x + think_close()) == think_open() + x + think_close(),
{
    reveal_strlit("<think>");
    reveal_strlit("</think>");
    let s = think_open() + x + think_close();
    assert(s[0] == '<');
    assert(s.last() == '>');
    assert(crate::text::trim_start_spec(s) == s);
    assert(crate::text::trim_end_spec(s) == s);
}

proof fn lemma_open_absent(x: Seq<char>)
    requires
        !contains(x, think_open()),
    ensures
        !contains(x + think_close(), think_open()),
{
    reveal_strlit("<think>");
    reveal_strlit("</think>");
    let rest = x + think_close();
    if contains(rest, think_open()) {
        let i = choose|i: int| occurs_at(rest, think_open(), i);
        let w = rest.subrange(i, i + 7);
        assert(w == think_open());
        if i + 7 <= x.len() {
            assert(x.subrange(i, i + 7) =~= w);
            assert(occurs_at(x, think_open(), i));
        } else if i < x.len() {
            let d = x.len() - i;
            assert(w[d] == rest[x.len() as int]);
            assert(rest[x.len() as int] == '<');
        } else {
            assert(w[0] == rest[i]);
            assert(w[1] == rest[i + 1]);
        }
    }
}

proof fn lemma_close_only_at_end(x: Seq<char>, i: int)
    requires
        !contains(x, think_close()),
        0 <= i < x.len(),
    ensures
        !occurs_at(x + think_close(), think_close(), i),
{
    reveal_strlit("</think>");
    let rest = x + think_close();
    if occurs_at(rest, think_close(), i) {
        let w = rest.subrange(i, i + 8);
        if i + 8 <= x.len() {
            assert(x.subrange(i, i + 8) =~= w);
            assert(occurs_at(x, think_close(), i));
        } else {
            let d = x.len() - i;
            assert(w[d] == rest[x.len() as int]);
            assert(rest[x.len() as int] == '<');
        }
    }
}

/// A reasoning text already framed as `<think>X</think>`, where `X` holds no
/// delimiter, comes out framed by exactly one pair around `X`, not by nested
/// pairs.
pub proof fn lemma_single_think_pair(x: Seq<char>)
    requires
        !contains(x, think_open()),
        !contains(x, think_close()),
    ensures
        think_wrapped(think_open() + x + think_close()) == "<think>\n"@ + x + "\n</think>"@,
{
    reveal_strlit("<think>");
    reveal_strlit("</think>");
    let s = think_open() + x + think_close();
    let n = s.len();
    lemma_framed_trim(x);
    let rest = x + think_close();
    assert(s.subrange(0, 7) =~= think_open());
    assert(s.subrange(7, n as int) =~= rest);
    lemma_open_absent(x);
    lemma_remove_absent(rest, think_open());
    assert(remove_all(s, think_open()) == remove_all(rest, think_open()));
    assert forall|i: int| 0 <= i < x.len() implies !occurs_at(rest, think_close(), i) by {
        lemma_close_only_at_end(x, i);
    }
    lemma_remove_trailing(x, think_close());
    assert(strip_pass(s) == x);
    assert(x.len() < s.len());
    lemma_remove_absent(x, think_open());
    lemma_remove_absent(x, think_close());
    assert(strip_pass(x) == x);
    assert(clear_delimiters(x) == x);
}

} // verus!
