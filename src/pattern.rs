use vstd::prelude::*;
use vstd::string::StrSliceExecFns;

verus! {

/// One element of a `LIKE` pattern.
#[derive(Clone, Copy, Debug, PartialEq, Eq, Structural)]
pub enum PatternToken {
    /// `%`: any run of characters, the empty one included.
    AnyRun,
    /// `_`: exactly one character.
    AnyOne,
    /// A character that must occur as it is.
    Literal(char),
}

/// The token that an unescaped pattern character stands for.
pub open spec fn token_of(c: char) -> PatternToken {
    if c == '%' {
        PatternToken::AnyRun
    } else if c == '_' {
        PatternToken::AnyOne
    } else {
        PatternToken::Literal(c)
    }
}

/// The token of a character that follows a backslash.
pub open spec fn escaped(c: char) -> PatternToken {
    PatternToken::Literal(c)
}

/// The tokens of a `LIKE` pattern from position `i` on: a backslash makes
/// the character after it literal, and a backslash at the very end stands
/// for itself.
pub open spec fn tokens_from(p: Seq<char>, i: int) -> Seq<PatternToken>
    decreases p.len() - i,
{
    if i < 0 || i >= p.len() {
        Seq::empty()
    } else if p[i] == '\\' && i + 1 < p.len() {
        seq![escaped(p[i + 1])] + tokens_from(p, i + 2)
    } else {
        seq![token_of(p[i])] + tokens_from(p, i + 1)
    }
}

/// The tokens of a `LIKE` pattern.
pub open spec fn tokens(p: Seq<char>) -> Seq<PatternToken> {
    tokens_from(p, 0)
}

/// Whether `s` matches the token sequence `t`.
pub open spec fn tokens_match(t: Seq<PatternToken>, s: Seq<char>) -> bool
    decreases t.len(), s.len(),
{
    if t.len() == 0 {
        s.len() == 0
    } else {
        match t[0] {
            PatternToken::AnyRun => tokens_match(t.drop_first(), s) || (s.len() > 0
                && tokens_match(t, s.drop_first())),
            PatternToken::AnyOne => s.len() > 0 && tokens_match(t.drop_first(), s.drop_first()),
            PatternToken::Literal(c) => s.len() > 0 && s[0] == c && tokens_match(
                t.drop_first(),
                s.drop_first(),
            ),
        }
    }
}

/// Whether `s` matches the `LIKE` pattern `p`: `%` stands for any run of
/// characters, `_` for exactly one, `\` makes the next character literal,
/// and every other character stands for itself (compared exactly, case
/// included).
pub open spec fn like_match(p: Seq<char>, s: Seq<char>) -> bool {
    tokens_match(tokens(p), s)
}

/// `tokens_match` of the suffixes of `t` and `s` from `i` and `j`.
pub open spec fn like_from(t: Seq<PatternToken>, s: Seq<char>, i: int, j: int) -> bool {
    tokens_match(t.subrange(i, t.len() as int), s.subrange(j, s.len() as int))
}

proof fn lemma_like_step(t: Seq<PatternToken>, s: Seq<char>, i: int, j: int)
    requires
        0 <= i < t.len(),
        0 <= j <= s.len(),
    ensures
        like_from(t, s, i, j) == match t[i] {
            PatternToken::AnyRun => like_from(t, s, i + 1, j) || (j < s.len() && like_from(
                t,
                s,
                i,
                j + 1,
            )),
            PatternToken::AnyOne => j < s.len() && like_from(t, s, i + 1, j + 1),
            PatternToken::Literal(c) => j < s.len() && s[j] == c && like_from(t, s, i + 1, j + 1),
        },
{
    let tt = t.subrange(i, t.len() as int);
    let ss = s.subrange(j, s.len() as int);
    assert(tt.drop_first() =~= t.subrange(i + 1, t.len() as int));
    if j < s.len() {
        assert(ss.drop_first() =~= s.subrange(j + 1, s.len() as int));
    }
}

fn tokenize(p: &Vec<char>) -> (r: Vec<PatternToken>)
    ensures
        r@ == tokens(p@),
{
    let m = p.len();
    let mut out: Vec<PatternToken> = Vec::new();
    let mut i: usize = 0;
    assert(out@ + tokens_from(p@, 0) =~= tokens(p@));
    while i < m
        invariant
            m == p@.len(),
            i <= m + 1,
            out@ + tokens_from(p@, i as int) == tokens(p@),
        decreases m - i,
    {
        let ghost prev = out@;
        let ghost start = i as int;
        let c = p[i];
        if c == '\\' && i + 1 < m {
            assert(tokens_from(p@, start) == seq![escaped(p@[start + 1])] + tokens_from(
                p@,
                start + 2,
            ));
            out.push(PatternToken::Literal(p[i + 1]));
            i += 2;
        } else {
            let tok = if c == '%' {
                PatternToken::AnyRun
            } else if c == '_' {
                PatternToken::AnyOne
            } else {
                PatternToken::Literal(c)
            };
            assert(tok == token_of(c));
            assert(tokens_from(p@, start) == seq![tok] + tokens_from(p@, start + 1));
            out.push(tok);
            i += 1;
        }
        assert(out@ + tokens_from(p@, i as int) =~= prev + tokens_from(p@, start));
    }
    assert(out@ =~= out@ + tokens_from(p@, i as int));
    out
}

/// The characters of a text.
pub fn chars_of(t: &str) -> (r: Vec<char>)
    ensures
        r@ == t@,
{
    let n = t.unicode_len();
    let mut out: Vec<char> = Vec::new();
    let mut k: usize = 0;
    while k < n
        invariant
            n == t@.len(),
            k <= n,
            out@ == t@.take(k as int),
        decreases n - k,
    {
        out.push(t.get_char(k));
        k += 1;
        assert(out@ =~= t@.take(k as int));
    }
    assert(t@.take(n as int) =~= t@);
    out
}

/// Whether `text` matches the `LIKE` pattern `pattern`.
pub fn like(pattern: &str, text: &str) -> (r: bool)
    ensures
        r == like_match(pattern@, text@),
{
    let pc = chars_of(pattern);
    let p = tokenize(&pc);
    let s = chars_of(text);
    let m = p.len();
    let n = s.len();
    let mut row: Vec<bool> = Vec::new();
    let mut j: usize = 0;
    while j < n
        invariant
            n == s@.len(),
            m == p@.len(),
            j <= n,
            row.len() == j,
            forall|t: int| 0 <= t < j ==> #[trigger] row@[t] == like_from(p@, s@, m as int, t),
        decreases n - j,
    {
        assert(p@.subrange(m as int, m as int).len() == 0);
        row.push(false);
        j += 1;
    }
    assert(p@.subrange(m as int, m as int).len() == 0);
    row.push(true);
    let mut i: usize = m;
    while i > 0
        invariant
            n == s@.len(),
            m == p@.len(),
            i <= m,
            row.len() == n + 1,
            forall|t: int| 0 <= t <= n ==> #[trigger] row@[t] == like_from(p@, s@, i as int, t),
        decreases i,
    {
        i -= 1;
        let tok = p[i];
        let mut next: Vec<bool> = Vec::new();
        let mut t: usize = 0;
        while t < n
            invariant
                t <= n,
                next.len() == t,
            decreases n - t,
        {
            next.push(false);
            t += 1;
        }
        proof {
            lemma_like_step(p@, s@, i as int, n as int);
        }
        next.push(tok == PatternToken::AnyRun && row[n]);
        let mut k: usize = n;
        while k > 0
            invariant
                n == s@.len(),
                m == p@.len(),
                i < m,
                tok == p@[i as int],
                k <= n,
                row.len() == n + 1,
                next.len() == n + 1,
                forall|t: int| 0 <= t <= n ==> #[trigger] row@[t] == like_from(p@, s@, i + 1, t),
                forall|t: int|
                    k <= t <= n ==> #[trigger] next@[t] == like_from(p@, s@, i as int, t),
            decreases k,
        {
            k -= 1;
            proof {
                lemma_like_step(p@, s@, i as int, k as int);
            }
            let v = match tok {
                PatternToken::AnyRun => row[k] || next[k + 1],
                PatternToken::AnyOne => row[k + 1],
                PatternToken::Literal(c) => s[k] == c && row[k + 1],
            };
            next.set(k, v);
        }
        row = next;
    }
    proof {
        assert(p@.subrange(0, m as int) =~= p@);
        assert(s@.subrange(0, n as int) =~= s@);
    }
    row[0]
}

} // verus!
