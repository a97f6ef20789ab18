//! Character-sequence utilities shared by the shell: the whitespace class used
//! for tokenizing input lines, and a lexicographic order on strings (by code
//! point) used to keep the host collection sorted.

use vstd::prelude::*;

verus! {

/// The whitespace characters that separate tokens on an input line.
pub open spec fn is_space(c: char) -> bool {
    c == ' ' || c == '\t' || c == '\r' || c == '\n'
}

/// Runtime check for [`is_space`].
pub fn space_char(c: char) -> (r: bool)
    ensures
        r == is_space(c),
{
    c == ' ' || c == '\t' || c == '\r' || c == '\n'
}

/// Strict lexicographic order on character sequences, comparing code points.
/// A proper prefix sorts before its extensions.
pub open spec fn lex_lt(a: Seq<char>, b: Seq<char>) -> bool
    decreases a.len(),
{
    if b.len() == 0 {
        false
    } else if a.len() == 0 {
        true
    } else if (a[0] as u32) < (b[0] as u32) {
        true
    } else if (a[0] as u32) > (b[0] as u32) {
        false
    } else {
        lex_lt(a.drop_first(), b.drop_first())
    }
}

/// The order is irreflexive and asymmetric.
pub proof fn lemma_lex_asymmetric(a: Seq<char>, b: Seq<char>)
    requires
        lex_lt(a, b),
    ensures
        !lex_lt(b, a),
        a != b,
    decreases a.len(),
{
    if a.len() != 0 && b.len() != 0 && (a[0] as u32) == (b[0] as u32) {
        lemma_lex_asymmetric(a.drop_first(), b.drop_first());
        assert(a != b) by {
            assert(a.drop_first() != b.drop_first());
        }
    } else {
        assert(a.len() < b.len() || (a[0] as u32) < (b[0] as u32));
    }
}

/// The order is transitive.
pub proof fn lemma_lex_transitive(a: Seq<char>, b: Seq<char>, c: Seq<char>)
    requires
        lex_lt(a, b),
        lex_lt(b, c),
    ensures
        lex_lt(a, c),
    decreases a.len(),
{
    if a.len() != 0 && b.len() != 0 && c.len() != 0 && (a[0] as u32) == (b[0] as u32) && (b[0]
        as u32) == (c[0] as u32) {
        lemma_lex_transitive(a.drop_first(), b.drop_first(), c.drop_first());
    }
}

/// A shared prefix does not affect the comparison of what follows it.
proof fn lemma_lex_common_prefix(a: Seq<char>, b: Seq<char>, i: int)
    requires
        0 <= i <= a.len(),
        i <= b.len(),
        forall|k: int| 0 <= k < i ==> a[k] == b[k],
    ensures
        lex_lt(a, b) <==> lex_lt(a.skip(i), b.skip(i)),
    decreases i,
{
    if i == 0 {
        assert(a.skip(0) =~= a);
        assert(b.skip(0) =~= b);
    } else {
        assert(a.drop_first() =~= a.skip(1));
        assert(b.drop_first() =~= b.skip(1));
        lemma_lex_common_prefix(a.skip(1), b.skip(1), i - 1);
        assert(a.skip(1).skip(i - 1) =~= a.skip(i));
        assert(b.skip(1).skip(i - 1) =~= b.skip(i));
    }
}

/// Three-way comparison result for strings.
pub enum Rel {
    Lt,
    Eq,
    Gt,
}

/// Three-way lexicographic comparison of two strings.
pub fn str_cmp(a: &str, b: &str) -> (r: Rel)
    ensures
        r is Lt <==> lex_lt(a@, b@),
        r is Eq <==> a@ == b@,
        r is Gt <==> lex_lt(b@, a@),
{
    let a_len = a.unicode_len();
    let b_len = b.unicode_len();
    let n = if a_len < b_len {
        a_len
    } else {
        b_len
    };
    let mut i: usize = 0;
    while i < n
        invariant
            0 <= i <= n,
            n <= a@.len(),
            n <= b@.len(),
            n == if a_len < b_len {
                a_len
            } else {
                b_len
            },
            a_len == a@.len(),
            b_len == b@.len(),
            forall|k: int| 0 <= k < i ==> a@[k] == b@[k],
        decreases n - i,
    {
        let ca = a.get_char(i);
        let cb = b.get_char(i);
        if (ca as u32) < (cb as u32) {
            proof {
                assert(a@.skip(i as int)[0] == a@[i as int]);
                assert(b@.skip(i as int)[0] == b@[i as int]);
                assert(lex_lt(a@.skip(i as int), b@.skip(i as int)));
                lemma_lex_common_prefix(a@, b@, i as int);
                lemma_lex_asymmetric(a@, b@);
            }
            return Rel::Lt;
        }
        if (ca as u32) > (cb as u32) {
            proof {
                assert(a@.skip(i as int)[0] == a@[i as int]);
                assert(b@.skip(i as int)[0] == b@[i as int]);
                assert(lex_lt(b@.skip(i as int), a@.skip(i as int)));
                lemma_lex_common_prefix(b@, a@, i as int);
                lemma_lex_asymmetric(b@, a@);
            }
            return Rel::Gt;
        }
        i = i + 1;
    }
    if a_len < b_len {
        proof {
            assert(a@.skip(n as int).len() == 0);
            assert(b@.skip(n as int).len() > 0);
            assert(lex_lt(a@.skip(n as int), b@.skip(n as int)));
            lemma_lex_common_prefix(a@, b@, n as int);
            lemma_lex_asymmetric(a@, b@);
        }
        Rel::Lt
    } else if b_len < a_len {
        proof {
            assert(b@.skip(n as int).len() == 0);
            assert(a@.skip(n as int).len() > 0);
            assert(lex_lt(b@.skip(n as int), a@.skip(n as int)));
            lemma_lex_common_prefix(b@, a@, n as int);
            lemma_lex_asymmetric(b@, a@);
        }
        Rel::Gt
    } else {
        proof {
            assert(a@ =~= b@);
            if lex_lt(a@, b@) {
                lemma_lex_asymmetric(a@, b@);
            }
            if lex_lt(b@, a@) {
                lemma_lex_asymmetric(b@, a@);
            }
        }
        Rel::Eq
    }
}

/// Equality of two strings as character sequences.
pub fn str_eq(a: &str, b: &str) -> (r: bool)
    ensures
        r == (a@ == b@),
{
    match str_cmp(a, b) {
        Rel::Eq => true,
        _ => false,
    }
}

/// The first position at or after `i` holding a whitespace character, or the
/// end of the sequence.
pub open spec fn token_end(s: Seq<char>, i: int) -> int
    decreases s.len() - i,
{
    if i < 0 || i >= s.len() {
        s.len() as int
    } else if is_space(s[i]) {
        i
    } else {
        token_end(s, i + 1)
    }
}

pub proof fn lemma_token_end(s: Seq<char>, i: int)
    requires
        0 <= i <= s.len(),
    ensures
        i <= token_end(s, i) <= s.len(),
        forall|k: int| i <= k < token_end(s, i) ==> !is_space(s[k]),
        token_end(s, i) < s.len() ==> is_space(s[token_end(s, i)]),
    decreases s.len() - i,
{
    if i < s.len() && !is_space(s[i]) {
        lemma_token_end(s, i + 1);
    }
}

/// If nothing in `[i, j)` is whitespace and `j` sits at whitespace or the end,
/// then `j` is where the token starting at `i` ends.
pub proof fn lemma_token_end_is(s: Seq<char>, i: int, j: int)
    requires
        0 <= i <= j <= s.len(),
        forall|k: int| i <= k < j ==> !is_space(s[k]),
        j < s.len() ==> is_space(s[j]),
    ensures
        token_end(s, i) == j,
    decreases j - i,
{
    if i < j {
        lemma_token_end_is(s, i + 1, j);
    }
}

/// The whitespace-delimited tokens of `s`, starting the scan at position `i`.
pub open spec fn tokens_from(s: Seq<char>, i: int) -> Seq<Seq<char>>
    decreases s.len() - i, 1int,
{
    if i < 0 || i >= s.len() {
        Seq::empty()
    } else if is_space(s[i]) {
        tokens_from(s, i + 1)
    } else {
        seq![s.subrange(i, token_end(s, i))].add(tokens_from_end(s, i))
    }
}

/// Helper for `tokens_from`: the tokens after the token that starts at `i`.
pub open spec fn tokens_from_end(s: Seq<char>, i: int) -> Seq<Seq<char>>
    decreases s.len() - i, 0int,
    when 0 <= i < s.len() && !is_space(s[i])
    via tokens_from_end_decreases
{
    tokens_from(s, token_end(s, i))
}

#[via_fn]
proof fn tokens_from_end_decreases(s: Seq<char>, i: int) {
    lemma_token_end(s, i);
    assert(token_end(s, i) == token_end(s, i + 1));
}

/// The whitespace-delimited tokens of a line. An all-whitespace line has none.
pub open spec fn tokens_of(s: Seq<char>) -> Seq<Seq<char>> {
    tokens_from(s, 0)
}

/// Splits a line into its whitespace-delimited tokens.
pub fn tokenize(line: &str) -> (r: Vec<String>)
    ensures
        r.deep_view() == tokens_of(line@),
{
    let len = line.unicode_len();
    let mut r: Vec<String> = Vec::new();
    let mut i: usize = 0;
    while i < len
        invariant
            0 <= i <= len,
            len == line@.len(),
            r.deep_view().add(tokens_from(line@, i as int)) == tokens_of(line@),
        decreases len - i,
    {
        let c = line.get_char(i);
        if space_char(c) {
            i = i + 1;
        } else {
            let ghost prev = r.deep_view();
            let mut j = i + 1;
            while j < len && !space_char(line.get_char(j))
                invariant
                    i < j <= len,
                    len == line@.len(),
                    forall|k: int| i <= k < j ==> !is_space(line@[k]),
                decreases len - j,
            {
                j = j + 1;
            }
            proof {
                lemma_token_end_is(line@, i as int, j as int);
                assert(tokens_from_end(line@, i as int) == tokens_from(line@, j as int));
                assert(tokens_from(line@, i as int) == seq![
                    line@.subrange(i as int, j as int),
                ].add(tokens_from(line@, j as int)));
            }
            let tok = line.substring_char(i, j);
            r.push(tok.to_owned());
            proof {
                let tt = line@.subrange(i as int, j as int);
                assert(r.deep_view() =~= prev.push(tt));
                assert(prev.push(tt).add(tokens_from(line@, j as int)) =~= prev.add(
                    seq![tt].add(tokens_from(line@, j as int)),
                ));
            }
            i = j;
        }
    }
    proof {
        assert(r.deep_view().add(tokens_from(line@, i as int)) =~= r.deep_view());
    }
    r
}

/// The parts joined with a single space between consecutive parts.
pub open spec fn joined(parts: Seq<Seq<char>>) -> Seq<char>
    decreases parts.len(),
{
    if parts.len() == 0 {
        Seq::empty()
    } else if parts.len() == 1 {
        parts[0]
    } else {
        parts[0].add(seq![' '].add(joined(parts.drop_first())))
    }
}

proof fn lemma_joined_push(parts: Seq<Seq<char>>, x: Seq<char>)
    ensures
        joined(parts.push(x)) == if parts.len() == 0 {
            x
        } else {
            joined(parts).add(seq![' '].add(x))
        },
    decreases parts.len(),
{
    let p = parts.push(x);
    if parts.len() == 0 {
        assert(p.len() == 1);
        assert(p[0] == x);
    } else {
        assert(p.drop_first() =~= parts.drop_first().push(x));
        lemma_joined_push(parts.drop_first(), x);
        if parts.len() == 1 {
            assert(joined(parts) == parts[0]);
            assert(joined(p) =~= joined(parts).add(seq![' '].add(x)));
        } else {
            assert(joined(p) =~= joined(parts).add(seq![' '].add(x)));
        }
    }
}

/// Joins the parts with a single space between consecutive parts.
pub fn join_spaced(parts: &[String]) -> (r: String)
    ensures
        r@ == joined(parts.deep_view()),
{
    let mut r = String::new();
    let mut i: usize = 0;
    while i < parts.len()
        invariant
            0 <= i <= parts.deep_view().len(),
            parts.deep_view().len() == parts@.len(),
            r@ == joined(parts.deep_view().take(i as int)),
        decreases parts@.len() - i,
    {
        let ghost prefix = parts.deep_view().take(i as int);
        if i > 0 {
            r.append(" ");
        }
        r.append(parts[i].as_str());
        proof {
            reveal_strlit(" ");
            assert(parts.deep_view().take(i + 1 as int) =~= prefix.push(
                parts.deep_view()[i as int],
            ));
            lemma_joined_push(prefix, parts.deep_view()[i as int]);
            if i == 0 {
                assert(r@ =~= joined(parts.deep_view().take(i + 1 as int)));
            } else {
                assert(r@ =~= joined(parts.deep_view().take(i + 1 as int)));
            }
        }
        i = i + 1;
    }
    proof {
        assert(parts.deep_view().take(parts.deep_view().len() as int) =~= parts.deep_view());
    }
    r
}

} // verus!
