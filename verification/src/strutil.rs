//! Small verified text helpers: decimal rendering, padding, line
//! splitting and substring search, shared by the tools' formatting logic.

use vstd::prelude::*;
use vstd::string::*;

verus! {

/// The decimal digit character for a value below ten.
pub open spec fn digit_char(d: int) -> char {
    if d == 0 {
        '0'
    } else if d == 1 {
        '1'
    } else if d == 2 {
        '2'
    } else if d == 3 {
        '3'
    } else if d == 4 {
        '4'
    } else if d == 5 {
        '5'
    } else if d == 6 {
        '6'
    } else if d == 7 {
        '7'
    } else if d == 8 {
        '8'
    } else {
        '9'
    }
}

/// The usual decimal rendering of a non-negative number, most significant
/// digit first, no leading zeroes (except for zero itself).
pub open spec fn dec_digits(n: int) -> Seq<char>
    recommends
        n >= 0,
    decreases n,
{
    if n < 10 {
        seq![digit_char(n)]
    } else {
        dec_digits(n / 10).push(digit_char(n % 10))
    }
}

/// A run of `k` spaces (empty when `k` is not positive).
pub open spec fn spaces(k: int) -> Seq<char>
    decreases k,
{
    if k <= 0 {
        Seq::empty()
    } else {
        spaces(k - 1).push(' ')
    }
}

fn digit_str(d: usize) -> (r: &'static str)
    requires
        d < 10,
    ensures
        r@ == seq![digit_char(d as int)],
{
    let r: &'static str = if d == 0 {
        "0"
    } else if d == 1 {
        "1"
    } else if d == 2 {
        "2"
    } else if d == 3 {
        "3"
    } else if d == 4 {
        "4"
    } else if d == 5 {
        "5"
    } else if d == 6 {
        "6"
    } else if d == 7 {
        "7"
    } else if d == 8 {
        "8"
    } else {
        "9"
    };
    proof {
        reveal_strlit("0");
        reveal_strlit("1");
        reveal_strlit("2");
        reveal_strlit("3");
        reveal_strlit("4");
        reveal_strlit("5");
        reveal_strlit("6");
        reveal_strlit("7");
        reveal_strlit("8");
        reveal_strlit("9");
        assert(r@ =~= seq![digit_char(d as int)]);
    }
    r
}

/// Renders a number in decimal.
pub fn usize_string(n: usize) -> (s: String)
    ensures
        s@ == dec_digits(n as int),
    decreases n,
{
    if n < 10 {
        digit_str(n).to_owned()
    } else {
        proof {
            assert(n / 10 < n) by (nonlinear_arith)
                requires
                    n >= 10,
            ;
        }
        let mut s = usize_string(n / 10);
        s.append(digit_str(n % 10));
        proof {
            assert(s@ =~= dec_digits(n as int));
        }
        s
    }
}

/// The texts a vector of strings holds, as sequences of characters.
pub open spec fn strs_view(s: Seq<String>) -> Seq<Seq<char>> {
    s.map_values(|p: String| p@)
}

/// Where a character first occurs in a text, or the text's length if it
/// does not.
pub open spec fn first_occurrence(s: Seq<char>, c: char) -> int
    decreases s.len(),
{
    if s.len() == 0 {
        0
    } else if s[0] == c {
        0
    } else {
        1 + first_occurrence(s.drop_first(), c)
    }
}

pub proof fn lemma_first_occurrence_bounds(s: Seq<char>, c: char)
    ensures
        0 <= first_occurrence(s, c) <= s.len(),
    decreases s.len(),
{
    if s.len() > 0 && s[0] != c {
        lemma_first_occurrence_bounds(s.drop_first(), c);
    }
}

pub proof fn lemma_first_occurrence_at(s: Seq<char>, c: char, e: int)
    requires
        0 <= e <= s.len(),
        forall|t: int| 0 <= t < e ==> s[t] != c,
        e == s.len() || s[e] == c,
    ensures
        first_occurrence(s, c) == e,
    decreases e,
{
    if s.len() > 0 && s[0] != c {
        assert(forall|t: int|
            0 <= t < e - 1 ==> s.drop_first()[t] == s[t + 1]);
        lemma_first_occurrence_at(s.drop_first(), c, e - 1);
    }
}

/// A line as `str::lines` yields it: a carriage return immediately before
/// the line feed is stripped with it.
pub open spec fn strip_cr(t: Seq<char>) -> Seq<char> {
    if t.len() > 0 && t.last() == '\r' {
        t.drop_last()
    } else {
        t
    }
}

/// The lines of a text, split at line feeds, each stripped of a carriage
/// return before the line feed; a trailing line feed opens no empty final
/// line, and a final line without one is kept as it stands.
pub open spec fn lines_std(s: Seq<char>) -> Seq<Seq<char>>
    decreases s.len(),
    via lines_std_decreases
{
    if s.len() == 0 {
        Seq::empty()
    } else {
        let k = first_occurrence(s, '\n');
        if k >= s.len() {
            seq![s]
        } else {
            seq![strip_cr(s.take(k))] + lines_std(s.skip(k + 1))
        }
    }
}

#[via_fn]
proof fn lines_std_decreases(s: Seq<char>) {
    lemma_first_occurrence_bounds(s, '\n');
}

/// Splits a text into its lines, as `str::lines` does.
pub fn split_lines(s: &str) -> (r: Vec<String>)
    ensures
        strs_view(r@) == lines_std(s@),
{
    let n = s.unicode_len();
    let mut r: Vec<String> = Vec::new();
    let mut pos: usize = 0;
    proof {
        assert(strs_view(r@) =~= Seq::<Seq<char>>::empty());
        assert(s@.skip(0) =~= s@);
        assert(strs_view(r@) + lines_std(s@.skip(0)) =~= lines_std(s@));
    }
    while pos < n
        invariant
            n == s@.len(),
            pos <= n,
            lines_std(s@) == strs_view(r@) + lines_std(s@.skip(pos as int)),
        decreases n - pos,
    {
        let ghost u = s@.skip(pos as int);
        let mut k = pos;
        while k < n && s.get_char(k) != '\n'
            invariant
                n == s@.len(),
                pos <= k <= n,
                forall|t: int| pos <= t < k ==> s@[t] != '\n',
            decreases n - k,
        {
            k = k + 1;
        }
        proof {
            assert(forall|t: int| 0 <= t < k - pos ==> u[t] == s@[t + pos]);
            if k < n {
                assert(u[k - pos] == s@[k as int]);
            }
            lemma_first_occurrence_at(u, '\n', k - pos);
        }
        let ghost r0 = strs_view(r@);
        if k == n {
            let line = s.substring_char(pos, n).to_owned();
            r.push(line);
            proof {
                assert(u =~= s@.subrange(pos as int, n as int));
                assert(strs_view(r@) =~= r0.push(u));
                assert(lines_std(u) =~= seq![u]);
                assert(s@.skip(n as int) =~= Seq::<char>::empty());
                assert(strs_view(r@) + lines_std(s@.skip(n as int)) =~= r0 + lines_std(u));
            }
            pos = n;
        } else {
            let end = if k > pos && s.get_char(k - 1) == '\r' {
                k - 1
            } else {
                k
            };
            let line = s.substring_char(pos, end).to_owned();
            r.push(line);
            proof {
                assert(u.take(k - pos) =~= s@.subrange(pos as int, k as int));
                if k > pos && s@[k - 1] == '\r' {
                    assert(u.take(k - pos).drop_last() =~= s@.subrange(pos as int, k - 1));
                }
                assert(strip_cr(u.take(k - pos)) =~= s@.subrange(pos as int, end as int));
                assert(strs_view(r@) =~= r0.push(strip_cr(u.take(k - pos))));
                assert(u.skip(k - pos + 1) =~= s@.skip(k + 1));
                assert(lines_std(u) =~= seq![strip_cr(u.take(k - pos))] + lines_std(
                    s@.skip(k + 1),
                ));
                assert(strs_view(r@) + lines_std(s@.skip(k + 1)) =~= r0 + lines_std(u));
            }
            pos = k + 1;
        }
    }
    proof {
        assert(s@.skip(pos as int) =~= Seq::<char>::empty());
        assert(strs_view(r@) =~= lines_std(s@));
    }
    r
}

/// The needle occurs in the haystack starting at position `i`.
pub open spec fn occurs_at(hay: Seq<char>, needle: Seq<char>, i: int) -> bool {
    0 <= i && i + needle.len() <= hay.len() && hay.subrange(i, i + needle.len()) == needle
}

/// The needle occurs somewhere in the haystack.
pub open spec fn contains_seq(hay: Seq<char>, needle: Seq<char>) -> bool {
    exists|i: int| occurs_at(hay, needle, i)
}

/// Whether one text holds another as a contiguous part.
pub fn str_contains(hay: &str, needle: &str) -> (b: bool)
    ensures
        b == contains_seq(hay@, needle@),
{
    match str_index_of(hay, needle, 0) {
        Some(_) => true,
        None => false,
    }
}

/// The first position at or after `from` where the needle occurs, if any.
pub fn str_index_of(hay: &str, needle: &str, from: usize) -> (r: Option<usize>)
    ensures
        match r {
            Some(i) => from <= i && occurs_at(hay@, needle@, i as int) && forall|j: int|
                from <= j < i ==> !occurs_at(hay@, needle@, j),
            None => forall|j: int| from <= j ==> !occurs_at(hay@, needle@, j),
        },
{
    let n = hay.unicode_len();
    let m = needle.unicode_len();
    if m > n || from > n - m {
        proof {
            assert(forall|j: int| from <= j ==> !occurs_at(hay@, needle@, j));
        }
        return None;
    }
    let mut i = from;
    loop
        invariant
            n == hay@.len(),
            m == needle@.len(),
            m <= n,
            from <= i <= n - m,
            forall|j: int| from <= j < i ==> !occurs_at(hay@, needle@, j),
        decreases n - m - i,
    {
        let mut k: usize = 0;
        let mut ok = true;
        while k < m
            invariant
                n == hay@.len(),
                m == needle@.len(),
                i + m <= n,
                k <= m,
                ok ==> forall|t: int| 0 <= t < k ==> hay@[i + t] == needle@[t],
                !ok ==> !occurs_at(hay@, needle@, i as int),
            decreases m - k,
        {
            if ok && hay.get_char(i + k) != needle.get_char(k) {
                ok = false;
                proof {
                    assert(hay@.subrange(i as int, i + m) != needle@) by {
                        assert(hay@.subrange(i as int, i + m)[k as int] == hay@[i + k]);
                    }
                }
            }
            k = k + 1;
        }
        if ok {
            proof {
                assert(hay@.subrange(i as int, i + m) =~= needle@);
            }
            return Some(i);
        }
        if i == n - m {
            proof {
                assert(forall|j: int| from <= j ==> !occurs_at(hay@, needle@, j)) by {
                    assert(forall|j: int|
                        j > n - m ==> !occurs_at(hay@, needle@, j));
                }
            }
            return None;
        }
        i = i + 1;
    }
}

/// Where the needle first occurs in the haystack, or a negative value if
/// it never does.
pub open spec fn first_match(hay: Seq<char>, needle: Seq<char>) -> int
    decreases hay.len(),
{
    if occurs_at(hay, needle, 0) {
        0
    } else if hay.len() == 0 {
        -1
    } else {
        let r = first_match(hay.drop_first(), needle);
        if r < 0 {
            -1
        } else {
            1 + r
        }
    }
}

pub proof fn lemma_first_match_at(hay: Seq<char>, needle: Seq<char>, e: int)
    requires
        occurs_at(hay, needle, e),
        forall|j: int| 0 <= j < e ==> !occurs_at(hay, needle, j),
    ensures
        first_match(hay, needle) == e,
    decreases e,
{
    if e > 0 {
        let rest = hay.drop_first();
        assert forall|t: int| 0 <= t < e - 1 implies !occurs_at(rest, needle, t) by {
            if occurs_at(rest, needle, t) {
                assert(hay.subrange(t + 1, t + 1 + needle.len() as int) =~= rest.subrange(
                    t,
                    t + needle.len() as int,
                ));
                assert(occurs_at(hay, needle, t + 1));
            }
        }
        assert(rest.subrange(e - 1, e - 1 + needle.len() as int) =~= hay.subrange(
            e,
            e + needle.len() as int,
        ));
        assert(occurs_at(rest, needle, e - 1));
        lemma_first_match_at(rest, needle, e - 1);
    }
}

pub proof fn lemma_first_match_none(hay: Seq<char>, needle: Seq<char>)
    requires
        forall|j: int| 0 <= j ==> !occurs_at(hay, needle, j),
    ensures
        first_match(hay, needle) < 0,
    decreases hay.len(),
{
    if !occurs_at(hay, needle, 0) && hay.len() > 0 {
        let rest = hay.drop_first();
        assert forall|t: int| 0 <= t implies !occurs_at(rest, needle, t) by {
            if occurs_at(rest, needle, t) {
                assert(hay.subrange(t + 1, t + 1 + needle.len() as int) =~= rest.subrange(
                    t,
                    t + needle.len() as int,
                ));
                assert(occurs_at(hay, needle, t + 1));
            }
        }
        lemma_first_match_none(rest, needle);
    }
}

pub proof fn lemma_first_match_bounds(hay: Seq<char>, needle: Seq<char>)
    ensures
        first_match(hay, needle) >= 0 ==> first_match(hay, needle) + needle.len() <= hay.len()
            && occurs_at(hay, needle, first_match(hay, needle)),
    decreases hay.len(),
{
    if !occurs_at(hay, needle, 0) && hay.len() > 0 {
        let rest = hay.drop_first();
        lemma_first_match_bounds(rest, needle);
        let r = first_match(rest, needle);
        if r >= 0 {
            assert(rest.subrange(r, r + needle.len() as int) =~= hay.subrange(
                r + 1,
                r + 1 + needle.len() as int,
            ));
        }
    }
}

/// Every occurrence of the needle replaced, left to right and without
/// overlap; an empty needle matches before every character and at the
/// end, as the standard library's replace does.
pub open spec fn replaced_all(s: Seq<char>, pat: Seq<char>, rep: Seq<char>) -> Seq<char>
    decreases s.len(),
    via replaced_all_decreases
{
    if pat.len() == 0 {
        if s.len() == 0 {
            rep
        } else {
            rep + seq![s[0]] + replaced_all(s.drop_first(), pat, rep)
        }
    } else {
        let m = first_match(s, pat);
        if m < 0 {
            s
        } else {
            s.take(m) + rep + replaced_all(s.skip(m + pat.len()), pat, rep)
        }
    }
}

#[via_fn]
proof fn replaced_all_decreases(s: Seq<char>, pat: Seq<char>, rep: Seq<char>) {
    lemma_first_match_bounds(s, pat);
}

/// Only the first occurrence of the needle replaced; an empty needle
/// matches at the very start.
pub open spec fn replaced_first(s: Seq<char>, pat: Seq<char>, rep: Seq<char>) -> Seq<char> {
    if pat.len() == 0 {
        rep + s
    } else {
        let m = first_match(s, pat);
        if m < 0 {
            s
        } else {
            s.take(m) + rep + s.skip(m + pat.len())
        }
    }
}

/// Replaces every occurrence of `pat` in `s` by `rep`, as the standard
/// library's `replace` does.
pub fn str_replace_all(s: &str, pat: &str, rep: &str) -> (r: String)
    ensures
        r@ == replaced_all(s@, pat@, rep@),
{
    let n = s.unicode_len();
    let m = pat.unicode_len();
    let mut out = String::new();
    if m == 0 {
        let mut i: usize = 0;
        proof {
            assert(s@.skip(0) =~= s@);
        }
        while i < n
            invariant
                n == s@.len(),
                m == pat@.len(),
                m == 0,
                i <= n,
                replaced_all(s@, pat@, rep@) == out@ + replaced_all(s@.skip(i as int), pat@, rep@),
            decreases n - i,
        {
            let ghost out0 = out@;
            out.append(rep);
            let c = s.substring_char(i, i + 1);
            out.append(c);
            proof {
                let u = s@.skip(i as int);
                assert(u[0] == s@[i as int]);
                assert(c@ =~= seq![u[0]]);
                assert(u.drop_first() =~= s@.skip(i + 1));
                assert(out@ + replaced_all(s@.skip(i + 1), pat@, rep@) =~= out0 + replaced_all(
                    u,
                    pat@,
                    rep@,
                ));
            }
            i = i + 1;
        }
        out.append(rep);
        proof {
            assert(s@.skip(n as int) =~= Seq::<char>::empty());
            assert(out@ =~= replaced_all(s@, pat@, rep@));
        }
        return out;
    }
    let mut pos: usize = 0;
    proof {
        assert(s@.skip(0) =~= s@);
    }
    loop
        invariant
            n == s@.len(),
            m == pat@.len(),
            m > 0,
            pos <= n,
            replaced_all(s@, pat@, rep@) == out@ + replaced_all(s@.skip(pos as int), pat@, rep@),
        decreases n - pos,
    {
        let found = str_index_of(s, pat, pos);
        let ghost u = s@.skip(pos as int);
        proof {
            assert forall|t: int| 0 <= t implies occurs_at(u, pat@, t) == occurs_at(
                s@,
                pat@,
                pos + t,
            ) by {
                if 0 <= t && t + pat@.len() <= u.len() {
                    assert(u.subrange(t, t + pat@.len() as int) =~= s@.subrange(
                        pos + t,
                        pos + t + pat@.len() as int,
                    ));
                }
            }
        }
        match found {
            Some(i) => {
                proof {
                    lemma_first_match_at(u, pat@, i - pos);
                }
                let ghost out0 = out@;
                let part = s.substring_char(pos, i);
                out.append(part);
                out.append(rep);
                proof {
                    assert(u.take(i - pos) =~= s@.subrange(pos as int, i as int));
                    assert(u.skip(i - pos + m) =~= s@.skip(i + m));
                    assert(replaced_all(u, pat@, rep@) == u.take(i - pos) + rep@ + replaced_all(
                        s@.skip(i + m),
                        pat@,
                        rep@,
                    ));
                    assert(out@ + replaced_all(s@.skip(i + m), pat@, rep@) =~= out0
                        + replaced_all(u, pat@, rep@));
                }
                pos = i + m;
            },
            None => {
                proof {
                    lemma_first_match_none(u, pat@);
                }
                let part = s.substring_char(pos, n);
                out.append(part);
                proof {
                    assert(u =~= s@.subrange(pos as int, n as int));
                    assert(out@ =~= replaced_all(s@, pat@, rep@));
                }
                return out;
            },
        }
    }
}

/// Replaces the first occurrence of `pat` in `s` by `rep`, as the
/// standard library's `replacen` with one round does.
pub fn str_replace_first(s: &str, pat: &str, rep: &str) -> (r: String)
    ensures
        r@ == replaced_first(s@, pat@, rep@),
{
    let n = s.unicode_len();
    let m = pat.unicode_len();
    let mut out = String::new();
    if m == 0 {
        out.append(rep);
        out.append(s);
        return out;
    }
    match str_index_of(s, pat, 0) {
        Some(i) => {
            proof {
                lemma_first_match_at(s@, pat@, i as int);
            }
            let part = s.substring_char(0, i);
            out.append(part);
            out.append(rep);
            let tail = s.substring_char(i + m, n);
            out.append(tail);
            proof {
                assert(s@.subrange(0, i as int) =~= s@.take(i as int));
                assert(s@.subrange(i + m, n as int) =~= s@.skip(i + m));
            }
            out
        },
        None => {
            proof {
                lemma_first_match_none(s@, pat@);
            }
            s.to_owned()
        },
    }
}

/// Lexicographic order on texts, by code point, a prefix before its
/// extensions. This is the order the standard library gives strings.
pub open spec fn lex_le(a: Seq<char>, b: Seq<char>) -> bool
    decreases a.len(),
{
    if a.len() == 0 {
        true
    } else if b.len() == 0 {
        false
    } else if (a[0] as u32) < (b[0] as u32) {
        true
    } else if (a[0] as u32) > (b[0] as u32) {
        false
    } else {
        lex_le(a.drop_first(), b.drop_first())
    }
}

pub proof fn lemma_lex_le_refl(a: Seq<char>)
    ensures
        lex_le(a, a),
    decreases a.len(),
{
    if a.len() > 0 {
        lemma_lex_le_refl(a.drop_first());
    }
}

pub proof fn lemma_lex_le_total(a: Seq<char>, b: Seq<char>)
    ensures
        lex_le(a, b) || lex_le(b, a),
    decreases a.len(),
{
    if a.len() > 0 && b.len() > 0 && (a[0] as u32) == (b[0] as u32) {
        lemma_lex_le_total(a.drop_first(), b.drop_first());
    }
}

pub proof fn lemma_lex_le_antisym(a: Seq<char>, b: Seq<char>)
    requires
        lex_le(a, b),
        lex_le(b, a),
    ensures
        a == b,
    decreases a.len(),
{
    if a.len() > 0 {
        assert(b.len() > 0);
        assert((a[0] as u32) == (b[0] as u32));
        vstd::utf8::char_u32_cast(a[0], a[0] as u32);
        vstd::utf8::char_u32_cast(b[0], b[0] as u32);
        assert(a[0] == b[0]);
        lemma_lex_le_antisym(a.drop_first(), b.drop_first());
        assert forall|i: int| 1 <= i < a.len() implies a[i] == b[i] by {
            assert(a.drop_first()[i - 1] == b.drop_first()[i - 1]);
        }
        assert(a =~= b);
    } else {
        assert(a =~= b);
    }
}

pub proof fn lemma_lex_le_trans(a: Seq<char>, b: Seq<char>, c: Seq<char>)
    requires
        lex_le(a, b),
        lex_le(b, c),
    ensures
        lex_le(a, c),
    decreases a.len(),
{
    if a.len() > 0 && b.len() > 0 && c.len() > 0 && (a[0] as u32) == (b[0] as u32) && (
    b[0] as u32) == (c[0] as u32) {
        lemma_lex_le_trans(a.drop_first(), b.drop_first(), c.drop_first());
    }
}

/// Compares two texts in the lexicographic order.
pub fn str_lex_le(a: &str, b: &str) -> (r: bool)
    ensures
        r == lex_le(a@, b@),
{
    let na = a.unicode_len();
    let nb = b.unicode_len();
    let mut k: usize = 0;
    proof {
        assert(a@.skip(0) =~= a@);
        assert(b@.skip(0) =~= b@);
    }
    loop
        invariant
            na == a@.len(),
            nb == b@.len(),
            k <= na,
            k <= nb,
            lex_le(a@, b@) == lex_le(a@.skip(k as int), b@.skip(k as int)),
        decreases na - k,
    {
        if k == na {
            proof {
                assert(a@.skip(k as int) =~= Seq::<char>::empty());
            }
            return true;
        }
        if k == nb {
            proof {
                assert(b@.skip(k as int) =~= Seq::<char>::empty());
                assert(a@.skip(k as int).len() > 0);
            }
            return false;
        }
        let ca = a.get_char(k);
        let cb = b.get_char(k);
        proof {
            assert(a@.skip(k as int)[0] == a@[k as int]);
            assert(b@.skip(k as int)[0] == b@[k as int]);
            assert(a@.skip(k as int).drop_first() =~= a@.skip(k + 1));
            assert(b@.skip(k as int).drop_first() =~= b@.skip(k + 1));
        }
        if (ca as u32) < (cb as u32) {
            return true;
        }
        if (ca as u32) > (cb as u32) {
            return false;
        }
        k = k + 1;
    }
}

/// The texts stand in ascending lexicographic order.
pub open spec fn sorted_strs(s: Seq<Seq<char>>) -> bool {
    forall|i: int| 0 <= i && i + 1 < s.len() ==> lex_le(#[trigger] s[i], s[i + 1])
}

/// Sorts the texts ascending; the result holds exactly the given texts.
pub fn sort_strings(v: Vec<String>) -> (r: Vec<String>)
    ensures
        sorted_strs(strs_view(r@)),
        strs_view(r@).to_multiset() == strs_view(v@).to_multiset(),
{
    broadcast use vstd::seq_lib::group_to_multiset_ensures;
    broadcast use vstd::multiset::group_multiset_axioms;

    let ghost orig = strs_view(v@);
    let mut rem = v;
    let mut out: Vec<String> = Vec::new();
    proof {
        assert(strs_view(out@) =~= Seq::<Seq<char>>::empty());
        assert(strs_view(out@).to_multiset().add(strs_view(rem@).to_multiset()) =~= orig.to_multiset());
    }
    while rem.len() > 0
        invariant
            orig == strs_view(v@),
            sorted_strs(strs_view(out@)),
            forall|j: int|
                0 <= j < rem@.len() && strs_view(out@).len() > 0 ==> lex_le(
                    strs_view(out@).last(),
                    rem@[j]@,
                ),
            strs_view(out@).to_multiset().add(strs_view(rem@).to_multiset())
                == orig.to_multiset(),
        decreases rem@.len(),
    {
        broadcast use vstd::seq_lib::group_to_multiset_ensures;
        broadcast use vstd::multiset::group_multiset_axioms;

        let mut mi: usize = 0;
        let mut i: usize = 1;
        proof {
            lemma_lex_le_refl(rem@[0]@);
        }
        while i < rem.len()
            invariant
                rem@.len() > 0,
                mi < i,
                i <= rem@.len(),
                forall|j: int| 0 <= j < i ==> lex_le(rem@[mi as int]@, rem@[j]@),
            decreases rem@.len() - i,
        {
            if !str_lex_le(rem[mi].as_str(), rem[i].as_str()) {
                proof {
                    lemma_lex_le_total(rem@[mi as int]@, rem@[i as int]@);
                    assert forall|j: int| 0 <= j < i implies lex_le(rem@[i as int]@, rem@[j]@) by {
                        lemma_lex_le_trans(rem@[i as int]@, rem@[mi as int]@, rem@[j]@);
                    }
                    lemma_lex_le_refl(rem@[i as int]@);
                }
                mi = i;
            }
            i = i + 1;
        }
        let ghost rem0 = rem@;
        let ghost out0 = strs_view(out@);
        let x = rem.remove(mi);
        out.push(x);
        proof {
            assert(strs_view(rem@) =~= strs_view(rem0).remove(mi as int));
            assert(strs_view(out@) =~= out0.push(rem0[mi as int]@));
            assert(strs_view(rem0)[mi as int] == rem0[mi as int]@);
            assert(strs_view(out@).to_multiset().add(strs_view(rem@).to_multiset())
                =~= out0.to_multiset().add(strs_view(rem0).to_multiset()));
            assert forall|t: int| 0 <= t && t + 1 < strs_view(out@).len() implies lex_le(
                #[trigger] strs_view(out@)[t],
                strs_view(out@)[t + 1],
            ) by {
                if t + 2 < strs_view(out@).len() {
                    assert(strs_view(out@)[t] == out0[t]);
                    assert(strs_view(out@)[t + 1] == out0[t + 1]);
                } else {
                    assert(strs_view(out@)[t + 1] == rem0[mi as int]@);
                }
            }
            assert forall|j: int|
                0 <= j < rem@.len() && strs_view(out@).len() > 0 implies lex_le(
                strs_view(out@).last(),
                rem@[j]@,
            ) by {
                if j < mi {
                    assert(rem@[j] == rem0[j]);
                } else {
                    assert(rem@[j] == rem0[j + 1]);
                }
            }
        }
    }
    proof {
        assert(strs_view(rem@) =~= Seq::<Seq<char>>::empty());
        assert(strs_view(out@).to_multiset().add(strs_view(rem@).to_multiset()) =~= strs_view(
            out@,
        ).to_multiset());
    }
    out
}

/// Whether two texts hold the same characters.
pub fn str_eq(a: &str, b: &str) -> (r: bool)
    ensures
        r == (a@ == b@),
{
    let n = a.unicode_len();
    if n != b.unicode_len() {
        return false;
    }
    let mut k: usize = 0;
    while k < n
        invariant
            n == a@.len(),
            n == b@.len(),
            k <= n,
            forall|t: int| 0 <= t < k ==> a@[t] == b@[t],
        decreases n - k,
    {
        if a.get_char(k) != b.get_char(k) {
            return false;
        }
        k = k + 1;
    }
    proof {
        assert(a@ =~= b@);
    }
    true
}

/// Left-pads with spaces to the given width; text already at least that
/// wide is returned unchanged.
pub fn pad_left(s: String, width: usize) -> (r: String)
    ensures
        r@ == spaces(width - s@.len()) + s@,
{
    let len = s.as_str().unicode_len();
    let mut p = String::new();
    let mut m = len;
    while m < width
        invariant
            len == s@.len(),
            len <= m,
            m <= width || m == len,
            p@ == spaces(m - len),
        decreases width - m,
    {
        p.append(" ");
        proof {
            reveal_strlit(" ");
            assert(p@ =~= spaces(m + 1 - len));
        }
        m = m + 1;
    }
    proof {
        if m == width {
            assert(p@ == spaces(width - s@.len()));
        } else {
            assert(m == len && len >= width);
            assert(spaces(m - len) == Seq::<char>::empty());
            assert(spaces(width - s@.len()) == Seq::<char>::empty());
        }
    }
    p.append(s.as_str());
    proof {
        assert(p@ =~= spaces(width - s@.len()) + s@);
    }
    p
}

} // verus!
