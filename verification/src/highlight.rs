//! Keyword highlighting: a line is split into whitespace-delimited tokens,
//! each classified against a fixed keyword set. The rendered form joins the
//! tokens with single spaces, so original inter-token spacing is collapsed;
//! that loss is deliberate and the round trip below pins it down.

use vstd::prelude::*;

use crate::editor::lines_of;

verus! {

/// The whitespace that separates tokens: the Unicode White_Space set.
pub open spec fn is_blank(c: char) -> bool {
    c == ' ' || c == '\t' || c == '\n' || c == '\u{000B}' || c == '\u{000C}' || c == '\r'
        || c == '\u{0085}' || c == '\u{00A0}' || c == '\u{1680}' || c == '\u{2000}'
        || c == '\u{2001}' || c == '\u{2002}' || c == '\u{2003}' || c == '\u{2004}'
        || c == '\u{2005}' || c == '\u{2006}' || c == '\u{2007}' || c == '\u{2008}'
        || c == '\u{2009}' || c == '\u{200A}' || c == '\u{2028}' || c == '\u{2029}'
        || c == '\u{202F}' || c == '\u{205F}' || c == '\u{3000}'
}

/// A token holds no whitespace.
pub open spec fn blank_free(t: Seq<char>) -> bool {
    forall|i: int| 0 <= i < t.len() ==> !is_blank(#[trigger] t[i])
}

/// The whitespace-delimited tokens of the text `s`, with `cur` the partial
/// token read so far: whitespace ends the current token (an empty one is
/// skipped), and a non-empty partial token at the end of the text counts.
pub open spec fn tokens_rest(cur: Seq<char>, s: Seq<char>) -> Seq<Seq<char>>
    decreases s.len(),
{
    if s.len() == 0 {
        if cur.len() == 0 {
            Seq::empty()
        } else {
            seq![cur]
        }
    } else if is_blank(s[0]) {
        if cur.len() == 0 {
            tokens_rest(Seq::empty(), s.drop_first())
        } else {
            seq![cur] + tokens_rest(Seq::empty(), s.drop_first())
        }
    } else {
        tokens_rest(cur.push(s[0]), s.drop_first())
    }
}

/// The whitespace-delimited tokens of a line.
pub open spec fn tokens_of(s: Seq<char>) -> Seq<Seq<char>> {
    tokens_rest(Seq::empty(), s)
}

/// The fixed, case-sensitive keyword set.
pub open spec fn spec_keywords() -> Seq<Seq<char>> {
    seq![
        seq!['f', 'n'],
        seq!['l', 'e', 't'],
        seq!['m', 'u', 't'],
        seq!['m', 'a', 't', 'c', 'h'],
        seq!['i', 'f'],
        seq!['e', 'l', 's', 'e'],
        seq!['f', 'o', 'r'],
        seq!['l', 'o', 'o', 'p'],
        seq!['w', 'h', 'i', 'l', 'e'],
        seq!['r', 'e', 't', 'u', 'r', 'n'],
    ]
}

/// Whether a token is one of the keywords.
pub open spec fn is_keyword(t: Seq<char>) -> bool {
    spec_keywords().contains(t)
}

/// Each token of a line paired with its keyword flag.
pub open spec fn token_spans(s: Seq<char>) -> Seq<(Seq<char>, bool)> {
    Seq::new(tokens_of(s).len(), |i: int| (tokens_of(s)[i], is_keyword(tokens_of(s)[i])))
}

/// Tokens joined by single spaces: the text a highlighted line renders as.
pub open spec fn join_tokens(ts: Seq<Seq<char>>) -> Seq<char>
    decreases ts.len(),
{
    if ts.len() == 0 {
        Seq::empty()
    } else if ts.len() == 1 {
        ts[0]
    } else {
        ts[0] + seq![' '] + join_tokens(ts.drop_first())
    }
}

/// The token texts of a span list.
pub open spec fn texts_of(v: Seq<(Vec<char>, bool)>) -> Seq<Seq<char>> {
    Seq::new(v.len(), |i: int| v[i].0@)
}

/// A span list as (token text, keyword flag) pairs.
pub open spec fn spans_of(v: Seq<(Vec<char>, bool)>) -> Seq<(Seq<char>, bool)> {
    Seq::new(v.len(), |i: int| (v[i].0@, v[i].1))
}

/// Whether `c` separates tokens.
pub fn is_blank_char(c: char) -> (r: bool)
    ensures
        r == is_blank(c),
{
    match c {
        ' ' | '\t' | '\n' | '\u{000B}' | '\u{000C}' | '\r' | '\u{0085}' | '\u{00A0}'
            | '\u{1680}' | '\u{2000}' | '\u{2001}' | '\u{2002}' | '\u{2003}' | '\u{2004}'
            | '\u{2005}' | '\u{2006}' | '\u{2007}' | '\u{2008}' | '\u{2009}' | '\u{200A}'
            | '\u{2028}' | '\u{2029}' | '\u{202F}' | '\u{205F}' | '\u{3000}' => true,
        _ => false,
    }
}

/// Character-wise equality of two lines.
fn chars_eq(a: &Vec<char>, b: &Vec<char>) -> (r: bool)
    ensures
        r == (a@ == b@),
{
    if a.len() != b.len() {
        return false;
    }
    let mut i: usize = 0;
    while i < a.len()
        invariant
            i <= a.len(),
            a@.len() == b@.len(),
            forall|j: int| 0 <= j < i ==> a@[j] == b@[j],
        decreases a.len() - i,
    {
        if a[i] != b[i] {
            return false;
        }
        i = i + 1;
    }
    proof {
        assert(a@ =~= b@);
    }
    true
}

/// The keyword set as a list of lines.
fn keywords() -> (r: Vec<Vec<char>>)
    ensures
        lines_of(r@) == spec_keywords(),
{
    let mut ks: Vec<Vec<char>> = Vec::new();
    ks.push(vec!['f', 'n']);
    ks.push(vec!['l', 'e', 't']);
    ks.push(vec!['m', 'u', 't']);
    ks.push(vec!['m', 'a', 't', 'c', 'h']);
    ks.push(vec!['i', 'f']);
    ks.push(vec!['e', 'l', 's', 'e']);
    ks.push(vec!['f', 'o', 'r']);
    ks.push(vec!['l', 'o', 'o', 'p']);
    ks.push(vec!['w', 'h', 'i', 'l', 'e']);
    ks.push(vec!['r', 'e', 't', 'u', 'r', 'n']);
    proof {
        assert(lines_of(ks@) =~~= spec_keywords());
    }
    ks
}

/// Whether a token is one of the fixed keywords.
pub fn is_keyword_token(t: &Vec<char>) -> (r: bool)
    ensures
        r == is_keyword(t@),
{
    let ks = keywords();
    let mut i: usize = 0;
    while i < ks.len()
        invariant
            i <= ks.len(),
            lines_of(ks@) == spec_keywords(),
            forall|j: int| 0 <= j < i ==> spec_keywords()[j] != t@,
        decreases ks.len() - i,
    {
        if chars_eq(t, &ks[i]) {
            proof {
                assert(spec_keywords()[i as int] == t@);
            }
            return true;
        }
        i = i + 1;
    }
    proof {
        assert(forall|j: int| 0 <= j < spec_keywords().len() ==> spec_keywords()[j] != t@);
    }
    false
}

/// Split a line into its tokens, each with its keyword flag.
pub fn highlight_line(line: &Vec<char>) -> (r: Vec<(Vec<char>, bool)>)
    ensures
        spans_of(r@) == token_spans(line@),
{
    let mut out: Vec<(Vec<char>, bool)> = Vec::new();
    let mut cur: Vec<char> = Vec::new();
    let mut i: usize = 0;
    proof {
        assert(line@.skip(0) =~= line@);
    }
    while i < line.len()
        invariant
            i <= line.len(),
            tokens_of(line@) == texts_of(out@) + tokens_rest(cur@, line@.skip(i as int)),
            forall|j: int| 0 <= j < out@.len() ==> (#[trigger] out@[j]).1 == is_keyword(
                out@[j].0@,
            ),
        decreases line.len() - i,
    {
        let c = line[i];
        proof {
            assert(line@.skip(i as int)[0] == line@[i as int]);
            assert(line@.skip(i as int).drop_first() =~= line@.skip(i + 1));
        }
        if is_blank_char(c) {
            proof {
                assert(is_blank(line@.skip(i as int)[0]));
            }
            if !cur.is_empty() {
                let ghost prev_out = out@;
                let ghost prev_cur = cur@;
                proof {
                    assert(tokens_rest(prev_cur, line@.skip(i as int)) == seq![prev_cur]
                        + tokens_rest(Seq::<char>::empty(), line@.skip(i + 1)));
                }
                let flag = is_keyword_token(&cur);
                out.push((cur, flag));
                cur = Vec::new();
                proof {
                    assert(texts_of(out@) =~~= texts_of(prev_out) + seq![prev_cur]);
                    assert(cur@ =~= Seq::<char>::empty());
                    assert(tokens_of(line@) =~~= texts_of(out@) + tokens_rest(
                        cur@,
                        line@.skip(i + 1),
                    ));
                }
            } else {
                proof {
                    assert(cur@ =~= Seq::<char>::empty());
                    assert(tokens_rest(cur@, line@.skip(i as int)) == tokens_rest(
                        Seq::<char>::empty(),
                        line@.skip(i + 1),
                    ));
                }
            }
        } else {
            let ghost prev_cur = cur@;
            proof {
                assert(!is_blank(line@.skip(i as int)[0]));
                assert(tokens_rest(prev_cur, line@.skip(i as int)) == tokens_rest(
                    prev_cur.push(line@[i as int]),
                    line@.skip(i + 1),
                ));
            }
            cur.push(c);
            proof {
                assert(cur@ == prev_cur.push(line@[i as int]));
            }
        }
        proof {
            assert(tokens_of(line@) =~~= texts_of(out@) + tokens_rest(
                cur@,
                line@.skip(i + 1),
            ));
        }
        i = i + 1;
    }
    proof {
        assert(line@.skip(line@.len() as int) =~= Seq::<char>::empty());
    }
    if !cur.is_empty() {
        let ghost prev_out = out@;
        let ghost prev_cur = cur@;
        let flag = is_keyword_token(&cur);
        out.push((cur, flag));
        proof {
            assert(texts_of(out@) =~~= texts_of(prev_out) + seq![prev_cur]);
        }
    }
    proof {
        assert(texts_of(out@) =~~= tokens_of(line@));
        assert(spans_of(out@) =~~= token_spans(line@));
    }
    out
}

/// Join a span list's tokens with single spaces: the text the highlighted
/// line is rendered as.
pub fn join_spans(spans: &Vec<(Vec<char>, bool)>) -> (r: Vec<char>)
    ensures
        r@ == join_tokens(texts_of(spans@)),
{
    let mut r: Vec<char> = Vec::new();
    let mut i: usize = 0;
    proof {
        assert(texts_of(spans@).take(0) =~= Seq::<Seq<char>>::empty());
    }
    while i < spans.len()
        invariant
            i <= spans.len(),
            r@ == join_tokens(texts_of(spans@).take(i as int)),
        decreases spans.len() - i,
    {
        let ghost prefix = texts_of(spans@).take(i as int);
        if i > 0 {
            r.push(' ');
        }
        let token = &spans[i].0;
        let mut j: usize = 0;
        while j < token.len()
            invariant
                j <= token.len(),
                i < spans.len(),
                token == &spans[i as int].0,
                r@ == join_tokens(texts_of(spans@).take(i as int)) + (if i == 0 {
                    Seq::<char>::empty()
                } else {
                    seq![' ']
                }) + token@.take(j as int),
            decreases token.len() - j,
        {
            r.push(token[j]);
            proof {
                assert(token@.take(j + 1) =~= token@.take(j as int).push(token@[j as int]));
            }
            j = j + 1;
        }
        proof {
            assert(token@.take(token@.len() as int) =~= token@);
            lemma_join_snoc(prefix, token@);
            assert(texts_of(spans@).take(i + 1) =~= prefix.push(token@));
            assert(prefix.len() == i as int);
            assert(r@ =~= join_tokens(texts_of(spans@).take(i + 1)));
        }
        i = i + 1;
    }
    proof {
        assert(texts_of(spans@).take(spans@.len() as int) =~= texts_of(spans@));
    }
    r
}

/// Appending one token to a join appends a separating space (when the join
/// was non-empty) and the token.
proof fn lemma_join_snoc(ts: Seq<Seq<char>>, t: Seq<char>)
    ensures
        join_tokens(ts.push(t)) == if ts.len() == 0 {
            t
        } else {
            join_tokens(ts) + seq![' '] + t
        },
    decreases ts.len(),
{
    if ts.len() == 0 {
        assert(ts.push(t)[0] == t);
    } else if ts.len() == 1 {
        assert(ts.push(t)[0] == ts[0]);
        assert(ts.push(t).drop_first() =~= seq![t]);
        assert(join_tokens(seq![t]) == t);
        assert(join_tokens(ts.push(t)) =~= join_tokens(ts) + seq![' '] + t);
    } else {
        assert(ts.push(t)[0] == ts[0]);
        assert(ts.push(t).drop_first() =~= ts.drop_first().push(t));
        lemma_join_snoc(ts.drop_first(), t);
        assert(join_tokens(ts.push(t)) =~= join_tokens(ts) + seq![' '] + t);
    }
}

/// Every token a line splits into is non-empty and holds no whitespace.
proof fn lemma_tokens_rest_wf(cur: Seq<char>, s: Seq<char>)
    requires
        blank_free(cur),
    ensures
        forall|j: int| 0 <= j < tokens_rest(cur, s).len() ==> (#[trigger] tokens_rest(
            cur,
            s,
        )[j]).len() > 0 && blank_free(tokens_rest(cur, s)[j]),
    decreases s.len(),
{
    if s.len() == 0 {
        if cur.len() > 0 {
            assert(tokens_rest(cur, s) == seq![cur]);
            assert(tokens_rest(cur, s)[0] == cur);
        }
    } else if is_blank(s[0]) {
        lemma_tokens_rest_wf(Seq::empty(), s.drop_first());
        if cur.len() == 0 {
            assert(tokens_rest(cur, s) == tokens_rest(Seq::<char>::empty(), s.drop_first()));
        }
        if cur.len() > 0 {
            let rest = tokens_rest(Seq::<char>::empty(), s.drop_first());
            assert(tokens_rest(cur, s) == seq![cur] + rest);
            assert forall|j: int| 0 <= j < tokens_rest(cur, s).len() implies (
            #[trigger] tokens_rest(cur, s)[j]).len() > 0 && blank_free(
                tokens_rest(cur, s)[j],
            ) by {
                if j == 0 {
                    assert(tokens_rest(cur, s)[0] == cur);
                } else {
                    assert(tokens_rest(cur, s)[j] == rest[j - 1]);
                }
            }
        }
    } else {
        assert(blank_free(cur.push(s[0])));
        lemma_tokens_rest_wf(cur.push(s[0]), s.drop_first());
        assert(tokens_rest(cur, s) == tokens_rest(cur.push(s[0]), s.drop_first()));
    }
}

/// Every token of a line is non-empty and holds no whitespace.
pub proof fn lemma_tokens_wf(s: Seq<char>)
    ensures
        forall|j: int| 0 <= j < tokens_of(s).len() ==> (#[trigger] tokens_of(s)[j]).len() > 0
            && blank_free(tokens_of(s)[j]),
{
    lemma_tokens_rest_wf(Seq::empty(), s);
}

/// Reading a whitespace-free token extends the partial token.
proof fn lemma_token_extend(cur: Seq<char>, t: Seq<char>, u: Seq<char>)
    requires
        blank_free(t),
    ensures
        tokens_rest(cur, t + u) == tokens_rest(cur + t, u),
    decreases t.len(),
{
    if t.len() == 0 {
        assert(t + u =~= u);
        assert(cur + t =~= cur);
    } else {
        assert((t + u)[0] == t[0]);
        assert(!is_blank(t[0]));
        assert((t + u).drop_first() =~= t.drop_first() + u);
        lemma_token_extend(cur.push(t[0]), t.drop_first(), u);
        assert(cur.push(t[0]) + t.drop_first() =~= cur + t);
    }
}

/// Tokenizing a single-space join of non-empty, whitespace-free tokens
/// gives back exactly those tokens.
proof fn lemma_join_round_trip(ts: Seq<Seq<char>>)
    requires
        forall|j: int| 0 <= j < ts.len() ==> (#[trigger] ts[j]).len() > 0 && blank_free(ts[j]),
    ensures
        tokens_of(join_tokens(ts)) == ts,
    decreases ts.len(),
{
    if ts.len() == 0 {
        assert(tokens_of(join_tokens(ts)) =~~= ts);
    } else if ts.len() == 1 {
        assert(join_tokens(ts) == ts[0]);
        assert(ts[0] =~= ts[0] + Seq::<char>::empty());
        lemma_token_extend(Seq::empty(), ts[0], Seq::empty());
        assert(Seq::<char>::empty() + ts[0] =~= ts[0]);
        assert(tokens_rest(ts[0], Seq::<char>::empty()) =~~= ts);
    } else {
        let tail = seq![' '] + join_tokens(ts.drop_first());
        assert(join_tokens(ts) =~= ts[0] + tail);
        lemma_token_extend(Seq::empty(), ts[0], tail);
        assert(Seq::<char>::empty() + ts[0] =~= ts[0]);
        assert(tail[0] == ' ');
        assert(is_blank(tail[0]));
        assert(tail.drop_first() =~= join_tokens(ts.drop_first()));
        lemma_join_round_trip(ts.drop_first());
        assert(tokens_of(join_tokens(ts)) =~~= seq![ts[0]] + ts.drop_first());
        assert(seq![ts[0]] + ts.drop_first() =~= ts);
    }
}

/// Highlighting is idempotent and whitespace-collapsing: rendering a line's
/// tokens with single spaces and highlighting the result gives the same
/// tokens with the same keyword flags, whatever the original spacing was.
pub proof fn lemma_highlight_idempotent(s: Seq<char>)
    ensures
        tokens_of(join_tokens(tokens_of(s))) == tokens_of(s),
        token_spans(join_tokens(tokens_of(s))) == token_spans(s),
{
    lemma_tokens_wf(s);
    lemma_join_round_trip(tokens_of(s));
    assert(token_spans(join_tokens(tokens_of(s))) =~~= token_spans(s));
}

} // verus!
