use vstd::prelude::*;
use vstd::string::StrSliceExecFns;
use vstd::string::StringExecFns;

verus! {

/// The text with every occurrence of `pat` replaced by `rep`, scanning
/// left to right without overlap: at each position, either the pattern
/// starts there, is replaced, and the scan resumes after it, or the scan
/// keeps the character and moves on by one.
pub open spec fn replace_seq(s: Seq<char>, pat: Seq<char>, rep: Seq<char>) -> Seq<char>
    decreases s.len(),
    when pat.len() >= 1
{
    if s.len() < pat.len() {
        s
    } else if s.take(pat.len() as int) == pat {
        rep + replace_seq(s.skip(pat.len() as int), pat, rep)
    } else {
        seq![s[0]] + replace_seq(s.skip(1), pat, rep)
    }
}

/// The segments of a text between `+` characters, in order; a text
/// without `+` is one segment, and leading, trailing or doubled `+`
/// yield empty segments.
pub open spec fn split_plus(s: Seq<char>) -> Seq<Seq<char>>
    decreases s.len(),
{
    if s.len() == 0 {
        seq![Seq::<char>::empty()]
    } else if s[0] == '+' {
        seq![Seq::<char>::empty()] + split_plus(s.skip(1))
    } else {
        let r = split_plus(s.skip(1));
        seq![seq![s[0]] + r[0]] + r.skip(1)
    }
}

/// A split always yields at least one segment.
pub proof fn lemma_split_plus_len(s: Seq<char>)
    ensures
        split_plus(s).len() >= 1,
    decreases s.len(),
{
    if s.len() != 0 {
        lemma_split_plus_len(s.skip(1));
    }
}

/// How many times a character occurs in a text.
pub open spec fn count_char(s: Seq<char>, c: char) -> nat
    decreases s.len(),
{
    if s.len() == 0 {
        0
    } else {
        count_char(s.drop_last(), c) + (if s.last() == c {
            1nat
        } else {
            0nat
        })
    }
}

/// Character counts add up over concatenation.
pub proof fn lemma_count_concat(a: Seq<char>, b: Seq<char>, c: char)
    ensures
        count_char(a + b, c) == count_char(a, c) + count_char(b, c),
    decreases b.len(),
{
    if b.len() == 0 {
        assert(a + b =~= a);
    } else {
        assert((a + b).drop_last() =~= a + b.drop_last());
        lemma_count_concat(a, b.drop_last(), c);
    }
}

/// A character is absent from a text exactly when its count is zero.
pub proof fn lemma_count_zero(s: Seq<char>, c: char)
    ensures
        (count_char(s, c) == 0) <==> (forall|i: int| 0 <= i < s.len() ==> s[i] != c),
    decreases s.len(),
{
    if s.len() > 0 {
        lemma_count_zero(s.drop_last(), c);
        assert(forall|i: int| 0 <= i < s.len() - 1 ==> s.drop_last()[i] == s[i]);
    }
}

/// How many positions of a text open an occurrence of a pattern;
/// overlapping occurrences all count.
pub open spec fn count_occurrences(s: Seq<char>, pat: Seq<char>) -> nat
    decreases s.len(),
{
    if pat.len() == 0 || s.len() < pat.len() {
        0
    } else {
        count_occurrences(s.drop_last(), pat) + (if s.skip(s.len() as int - pat.len() as int)
            == pat {
            1nat
        } else {
            0nat
        })
    }
}

/// Whether the characters of `pat` stand in `s` at position `i`.
fn is_match_at(s: &str, pat: &str, i: usize, n: usize, m: usize) -> (r: bool)
    requires
        n == s@.len(),
        m == pat@.len(),
        m >= 1,
        i + m <= n,
    ensures
        r == (s@.subrange(i as int, i as int + m as int) == pat@),
{
    let ghost sub = s@.subrange(i as int, i as int + m as int);
    let mut j: usize = 0;
    while j < m
        invariant
            j <= m,
            n == s@.len(),
            m == pat@.len(),
            i + m <= n,
            forall|k: int| 0 <= k < j ==> s@[i + k] == pat@[k],
        decreases m - j,
    {
        let cs = s.get_char(i + j);
        let cp = pat.get_char(j);
        if cs != cp {
            proof {
                let sub2 = s@.subrange(i as int, i as int + m as int);
                assert(sub2[j as int] == s@[i as int + j as int]);
                assert(sub2[j as int] != pat@[j as int]);
                assert(sub2 != pat@);
            }
            return false;
        }
        j = j + 1;
    }
    proof {
        assert(sub =~= pat@);
    }
    true
}

/// The text with every occurrence of `pat` replaced by `rep`, as
/// `replace_seq` states it.
pub fn replace_pat(s: &str, pat: &str, rep: &str) -> (r: String)
    requires
        pat@.len() >= 1,
    ensures
        r@ == replace_seq(s@, pat@, rep@),
{
    let n = s.unicode_len();
    let m = pat.unicode_len();
    let mut out = String::new();
    let mut i: usize = 0;
    proof {
        assert(s@.skip(0) =~= s@);
    }
    while n - i >= m
        invariant
            i <= n,
            n == s@.len(),
            m == pat@.len(),
            m >= 1,
            out@ + replace_seq(s@.skip(i as int), pat@, rep@) == replace_seq(s@, pat@, rep@),
        decreases n - i,
    {
        let ghost rest = s@.skip(i as int);
        proof {
            assert(rest.take(m as int) =~= s@.subrange(i as int, i as int + m as int));
        }
        if is_match_at(s, pat, i, n, m) {
            proof {
                assert(rest.skip(m as int) =~= s@.skip(i as int + m as int));
            }
            out.append(rep);
            i = i + m;
        } else {
            proof {
                assert(rest.skip(1) =~= s@.skip(i as int + 1));
                assert(seq![rest[0]] =~= s@.subrange(i as int, i as int + 1));
            }
            let piece = s.substring_char(i, i + 1);
            out.append(piece);
            i = i + 1;
        }
    }
    let tail = s.substring_char(i, n);
    out.append(tail);
    proof {
        assert(tail@ =~= s@.skip(i as int));
    }
    out
}

/// The segments of a text between `+` characters, as `split_plus`
/// states them.
pub fn split_on_plus(s: &str) -> (r: Vec<String>)
    ensures
        r@.len() == split_plus(s@).len(),
        forall|i: int| 0 <= i < r@.len() ==> (#[trigger] r@[i])@ == split_plus(s@)[i],
{
    let n = s.unicode_len();
    let mut done: Vec<String> = Vec::new();
    let mut cur = String::new();
    let mut i: usize = 0;
    proof {
        assert(s@.skip(0) =~= s@);
        lemma_split_plus_len(s@);
        let whole = split_plus(s@);
        assert(whole =~= seq![whole[0]] + whole.skip(1));
        assert(cur@ + whole[0] =~= whole[0]);
        assert(done@.map_values(|t: String| t@) + seq![cur@ + whole[0]] + whole.skip(1) =~= whole);
    }
    while i < n
        invariant
            i <= n,
            n == s@.len(),
            split_plus(s@.skip(i as int)).len() >= 1,
            split_plus(s@) == done@.map_values(|t: String| t@) + seq![
                cur@ + split_plus(s@.skip(i as int))[0],
            ] + split_plus(s@.skip(i as int)).skip(1),
        decreases n - i,
    {
        let ghost rest = s@.skip(i as int);
        let ghost dv = done@.map_values(|t: String| t@);
        let c = s.get_char(i);
        proof {
            assert(rest[0] == s@[i as int]);
            assert(rest.skip(1) =~= s@.skip(i as int + 1));
            lemma_split_plus_len(s@.skip(i as int + 1));
        }
        if c == '+' {
            proof {
                let r2 = split_plus(s@.skip(i as int + 1));
                assert(split_plus(rest) == seq![Seq::<char>::empty()] + r2);
                assert(split_plus(rest)[0] =~= Seq::<char>::empty());
                assert(cur@ + split_plus(rest)[0] =~= cur@);
                assert(split_plus(rest).skip(1) =~= r2);
                assert((done@ + seq![cur]).map_values(|t: String| t@) =~= dv + seq![cur@]);
                assert(r2 =~= seq![r2[0]] + r2.skip(1));
                assert(dv + seq![cur@] + seq![Seq::<char>::empty() + r2[0]] + r2.skip(1) =~= dv
                    + seq![cur@ + split_plus(rest)[0]] + split_plus(rest).skip(1));
                assert(Seq::<char>::empty() + r2[0] =~= r2[0]);
            }
            done.push(cur);
            cur = String::new();
            i = i + 1;
        } else {
            proof {
                let r2 = split_plus(s@.skip(i as int + 1));
                assert(split_plus(rest) == seq![seq![rest[0]] + r2[0]] + r2.skip(1));
                assert(cur@ + (seq![rest[0]] + r2[0]) =~= (cur@ + seq![rest[0]]) + r2[0]);
                assert(seq![rest[0]] =~= s@.subrange(i as int, i as int + 1));
                assert(split_plus(rest).skip(1) =~= r2.skip(1));
            }
            let piece = s.substring_char(i, i + 1);
            cur.append(piece);
            i = i + 1;
        }
    }
    proof {
        let rest = s@.skip(i as int);
        assert(rest =~= Seq::<char>::empty());
        assert(split_plus(rest) == seq![Seq::<char>::empty()]);
        assert(cur@ + split_plus(rest)[0] =~= cur@);
        assert(split_plus(rest).skip(1) =~= Seq::<Seq<char>>::empty());
        let dv = done@.map_values(|t: String| t@);
        assert(split_plus(s@) =~= dv + seq![cur@]);
        assert((done@ + seq![cur]).map_values(|t: String| t@) =~= dv + seq![cur@]);
    }
    done.push(cur);
    done
}

} // verus!
