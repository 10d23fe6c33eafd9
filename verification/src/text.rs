//! Helpers on text, stated over the characters of strings.

use vstd::prelude::*;
use vstd::std_specs::iter::IteratorSpec;

verus! {

broadcast use vstd::string::group_string_axioms;

/// Returns the characters of `s`.
pub fn chars_of(s: &str) -> (cs: Vec<char>)
    ensures
        cs@ == s@,
{
    let n = s.unicode_len();
    let mut it = s.chars();
    let mut cs: Vec<char> = Vec::new();
    let mut i: usize = 0;
    while i < n
        invariant
            n == s@.len(),
            i <= n,
            cs@.len() == i,
            cs@ + it.remaining() == s@,
        decreases n - i,
    {
        if let Some(c) = it.next() {
            cs.push(c);
        }
        i += 1;
    }
    cs
}

/// Whether `a` and `b` hold the same text.
pub fn str_eq(a: &str, b: &str) -> (r: bool)
    ensures
        r == (a@ == b@),
{
    let ac = chars_of(a);
    let bc = chars_of(b);
    if ac.len() != bc.len() {
        return false;
    }
    let mut i: usize = 0;
    while i < ac.len()
        invariant
            ac@ == a@,
            bc@ == b@,
            ac@.len() == bc@.len(),
            i <= ac@.len(),
            forall|j: int| 0 <= j < i ==> ac@[j] == bc@[j],
        decreases ac@.len() - i,
    {
        if ac[i] != bc[i] {
            return false;
        }
        i += 1;
    }
    proof {
        assert(ac@ =~= bc@);
    }
    true
}

/// Whether `s` starts with `p`.
pub fn starts_with(s: &str, p: &str) -> (r: bool)
    ensures
        r == (p@.len() <= s@.len() && s@.take(p@.len() as int) == p@),
{
    let sc = chars_of(s);
    let pc = chars_of(p);
    if pc.len() > sc.len() {
        return false;
    }
    let mut i: usize = 0;
    while i < pc.len()
        invariant
            sc@ == s@,
            pc@ == p@,
            pc@.len() <= sc@.len(),
            i <= pc@.len(),
            forall|j: int| 0 <= j < i ==> sc@[j] == pc@[j],
        decreases pc@.len() - i,
    {
        if sc[i] != pc[i] {
            proof {
                assert(s@.take(p@.len() as int)[i as int] != p@[i as int]);
            }
            return false;
        }
        i += 1;
    }
    proof {
        assert(s@.take(p@.len() as int) =~= p@);
    }
    true
}

/// Whether `s` ends with `p`.
pub fn ends_with(s: &str, p: &str) -> (r: bool)
    ensures
        r == (p@.len() <= s@.len() && s@.skip(s@.len() - p@.len()) == p@),
{
    let sc = chars_of(s);
    let pc = chars_of(p);
    if pc.len() > sc.len() {
        return false;
    }
    let sl = sc.len();
    let off = sl - pc.len();
    let mut i: usize = 0;
    while i < pc.len()
        invariant
            sc@ == s@,
            pc@ == p@,
            off == sc@.len() - pc@.len(),
            sl == sc@.len(),
            pc@.len() <= sc@.len(),
            i <= pc@.len(),
            forall|j: int| 0 <= j < i ==> sc@[off + j] == pc@[j],
        decreases pc@.len() - i,
    {
        if sc[off + i] != pc[i] {
            proof {
                assert(s@.skip(s@.len() - p@.len())[i as int] != p@[i as int]);
            }
            return false;
        }
        i += 1;
    }
    proof {
        assert(s@.skip(s@.len() - p@.len()) =~= p@);
    }
    true
}

/// Returns the text of `s` from character `from` to character `to`.
pub fn substring(s: &str, from: usize, to: usize) -> (r: String)
    requires
        from <= to <= s@.len(),
    ensures
        r@ == s@.subrange(from as int, to as int),
{
    String::from_str(s.substring_char(from, to))
}

/// Returns the text of `a` followed by `b`.
pub fn concat(a: &str, b: &str) -> (r: String)
    ensures
        r@ == a@ + b@,
{
    let mut r = String::from_str(a);
    r.append(b);
    r
}

/// The texts of `v`.
pub open spec fn texts(v: Seq<String>) -> Seq<Seq<char>> {
    v.map_values(|s: String| s@)
}

/// The pieces of `s` between occurrences of `sep`, as `str::split` yields
/// them: one more piece than there are separators.
pub open spec fn split_on(s: Seq<char>, sep: char) -> Seq<Seq<char>>
    decreases s.len(),
{
    if s.len() == 0 {
        seq![Seq::empty()]
    } else {
        let p = split_on(s.drop_last(), sep);
        if s.last() == sep {
            p.push(Seq::empty())
        } else {
            p.update(p.len() - 1, p.last().push(s.last()))
        }
    }
}

/// Splitting always yields at least one piece.
pub proof fn lemma_split_on_nonempty(s: Seq<char>, sep: char)
    ensures
        split_on(s, sep).len() >= 1,
    decreases s.len(),
{
    if s.len() > 0 {
        lemma_split_on_nonempty(s.drop_last(), sep);
    }
}

/// Returns the pieces of `s` between occurrences of `sep`.
pub fn split_char(s: &str, sep: char) -> (parts: Vec<String>)
    ensures
        texts(parts@) == split_on(s@, sep),
{
    let cs = chars_of(s);
    let n = cs.len();
    let mut parts: Vec<String> = Vec::new();
    let mut start: usize = 0;
    let mut i: usize = 0;
    proof {
        assert(s@.take(0) =~= Seq::<char>::empty());
        assert(texts(parts@).push(s@.subrange(0, 0)) =~= seq![Seq::<char>::empty()]);
    }
    while i < n
        invariant
            cs@ == s@,
            n == s@.len(),
            start <= i <= n,
            texts(parts@).push(s@.subrange(start as int, i as int)) == split_on(
                s@.take(i as int),
                sep,
            ),
        decreases n - i,
    {
        let ghost before = s@.take(i as int);
        let ghost cur = s@.subrange(start as int, i as int);
        proof {
            assert(s@.take(i + 1).drop_last() =~= before);
            assert(s@.take(i + 1).last() == s@[i as int]);
            lemma_split_on_nonempty(before, sep);
        }
        if cs[i] == sep {
            let piece = substring(s, start, i);
            parts.push(piece);
            start = i + 1;
            proof {
                assert(texts(parts@) =~= texts(parts@.drop_last()).push(cur));
                assert(s@.subrange(start as int, i + 1) =~= Seq::<char>::empty());
            }
        } else {
            proof {
                let p = split_on(before, sep);
                assert(p.last() == cur);
                assert(s@.subrange(start as int, i + 1) =~= cur.push(s@[i as int]));
                assert(texts(parts@).push(s@.subrange(start as int, i + 1)) =~= p.update(
                    p.len() - 1,
                    p.last().push(s@[i as int]),
                ));
            }
        }
        i += 1;
    }
    let last = substring(s, start, n);
    let ghost before_parts = parts@;
    parts.push(last);
    proof {
        assert(s@.take(n as int) =~= s@);
        assert(texts(parts@) =~= texts(before_parts).push(last@));
    }
    parts
}

/// The texts of `xs` with `sep` between each two.
pub open spec fn joined_with(xs: Seq<Seq<char>>, sep: char) -> Seq<char>
    decreases xs.len(),
{
    if xs.len() == 0 {
        Seq::empty()
    } else if xs.len() == 1 {
        xs[0]
    } else {
        joined_with(xs.drop_last(), sep) + seq![sep] + xs.last()
    }
}

/// Whether no text of `xs` holds `sep`.
pub open spec fn all_free_of(xs: Seq<Seq<char>>, sep: char) -> bool {
    forall|i: int, j: int| 0 <= i < xs.len() && 0 <= j < xs[i].len() ==> #[trigger] xs[i][j] != sep
}

proof fn lemma_split_free(b: Seq<char>, sep: char)
    requires
        forall|j: int| 0 <= j < b.len() ==> b[j] != sep,
    ensures
        split_on(b, sep) == seq![b],
    decreases b.len(),
{
    if b.len() == 0 {
        assert(b =~= Seq::<char>::empty());
    } else {
        lemma_split_free(b.drop_last(), sep);
        assert(b.last() == b[b.len() - 1]);
        assert(b.drop_last().push(b.last()) =~= b);
        assert(seq![b.drop_last()].update(0, b.drop_last().push(b.last())) =~= seq![b]);
    }
}

pub proof fn lemma_split_after_sep(a: Seq<char>, b: Seq<char>, sep: char)
    requires
        forall|j: int| 0 <= j < b.len() ==> b[j] != sep,
    ensures
        split_on(a + seq![sep] + b, sep) == split_on(a, sep).push(b),
    decreases b.len(),
{
    let s = a + seq![sep] + b;
    if b.len() == 0 {
        assert(b =~= Seq::<char>::empty());
        assert(s.drop_last() =~= a);
        assert(s.last() == sep);
    } else {
        lemma_split_after_sep(a, b.drop_last(), sep);
        assert(s.drop_last() =~= a + seq![sep] + b.drop_last());
        assert(s.last() == b.last());
        assert(b.last() == b[b.len() - 1]);
        let p = split_on(a, sep).push(b.drop_last());
        assert(b.drop_last().push(b.last()) =~= b);
        assert(p.update(p.len() - 1, p.last().push(b.last())) =~= split_on(a, sep).push(b));
    }
}

/// Splitting undoes joining: texts without the separator, joined with it,
/// split back into the same texts.
pub proof fn lemma_split_joined(xs: Seq<Seq<char>>, sep: char)
    requires
        xs.len() >= 1,
        all_free_of(xs, sep),
    ensures
        split_on(joined_with(xs, sep), sep) == xs,
    decreases xs.len(),
{
    if xs.len() == 1 {
        assert forall|j: int| 0 <= j < xs[0].len() implies xs[0][j] != sep by {
            assert(xs[0][j] != sep);
        }
        lemma_split_free(xs[0], sep);
        assert(seq![xs[0]] =~= xs);
    } else {
        let init = xs.drop_last();
        assert forall|i: int, j: int| 0 <= i < init.len() && 0 <= j < init[i].len() implies #[trigger] init[i][j]
            != sep by {
            assert(xs[i][j] != sep);
        }
        lemma_split_joined(init, sep);
        assert forall|j: int| 0 <= j < xs.last().len() implies xs.last()[j] != sep by {
            assert(xs[xs.len() - 1][j] != sep);
        }
        lemma_split_after_sep(joined_with(init, sep), xs.last(), sep);
        assert(init.push(xs.last()) =~= xs);
    }
}

/// Returns the texts of `xs` with `sep` between each two.
pub fn join_with(xs: &Vec<String>, sep: &str) -> (r: String)
    requires
        sep@.len() == 1,
    ensures
        r@ == joined_with(texts(xs@), sep@[0]),
{
    let mut r = String::new();
    let mut i: usize = 0;
    while i < xs.len()
        invariant
            sep@.len() == 1,
            i <= xs@.len(),
            r@ == joined_with(texts(xs@.take(i as int)), sep@[0]),
        decreases xs@.len() - i,
    {
        proof {
            let t = texts(xs@.take(i + 1));
            assert(t.drop_last() =~= texts(xs@.take(i as int)));
            assert(t.last() == xs@[i as int]@);
            assert(sep@ =~= seq![sep@[0]]);
        }
        if i > 0 {
            r.append(sep);
        } else {
            proof {
                assert(texts(xs@.take(1)) =~= seq![xs@[0]@]);
            }
        }
        r.append(xs[i].as_str());
        i += 1;
    }
    proof {
        assert(xs@.take(i as int) =~= xs@);
    }
    r
}


/// Whether `c` has the Unicode `White_Space` property, as
/// `char::is_whitespace` documents it.
pub open spec fn is_white_space(c: char) -> bool {
    ||| ('\u{9}' <= c && c <= '\u{d}')
    ||| c == ' '
    ||| c == '\u{85}'
    ||| c == '\u{a0}'
    ||| c == '\u{1680}'
    ||| ('\u{2000}' <= c && c <= '\u{200a}')
    ||| c == '\u{2028}'
    ||| c == '\u{2029}'
    ||| c == '\u{202f}'
    ||| c == '\u{205f}'
    ||| c == '\u{3000}'
}

fn white_space(c: char) -> (r: bool)
    ensures
        r == is_white_space(c),
{
    ('\u{9}' <= c && c <= '\u{d}') || c == ' ' || c == '\u{85}' || c == '\u{a0}' || c
        == '\u{1680}' || ('\u{2000}' <= c && c <= '\u{200a}') || c == '\u{2028}' || c
        == '\u{2029}' || c == '\u{202f}' || c == '\u{205f}' || c == '\u{3000}'
}

/// The length of `s` without its trailing white space.
pub open spec fn trimmed_end_len(s: Seq<char>) -> nat
    decreases s.len(),
{
    if s.len() == 0 || !is_white_space(s.last()) {
        s.len()
    } else {
        trimmed_end_len(s.drop_last())
    }
}

/// Returns `s` without its trailing white space, as `str::trim_end` does.
pub fn trim_end(s: &str) -> (r: String)
    ensures
        r@ == s@.take(trimmed_end_len(s@) as int),
{
    let cs = chars_of(s);
    let mut i: usize = cs.len();
    proof {
        assert(s@.take(i as int) =~= s@);
    }
    while i > 0 && white_space(cs[i - 1])
        invariant
            cs@ == s@,
            i <= s@.len(),
            trimmed_end_len(s@.take(i as int)) == trimmed_end_len(s@),
        decreases i,
    {
        proof {
            assert(s@.take(i as int).drop_last() =~= s@.take(i - 1));
            assert(s@.take(i as int).last() == s@[i - 1]);
        }
        i -= 1;
    }
    proof {
        if i > 0 {
            assert(s@.take(i as int).last() == s@[i - 1]);
        }
    }
    substring(s, 0, i)
}

/// The decimal digits.
pub open spec fn digit_chars() -> Seq<char> {
    seq!['0', '1', '2', '3', '4', '5', '6', '7', '8', '9']
}

/// The decimal rendering of `n`, without leading zeros.
pub open spec fn decimal(n: nat) -> Seq<char>
    decreases n,
{
    if n < 10 {
        seq![digit_chars()[n as int]]
    } else {
        decimal(n / 10) + seq![digit_chars()[(n % 10) as int]]
    }
}

/// Renders `n` in decimal.
pub fn decimal_string(n: u64) -> (s: String)
    ensures
        s@ == decimal(n as nat),
    decreases n,
{
    let digits = "0123456789";
    proof {
        reveal_strlit("0123456789");
        assert(digits@ =~= digit_chars());
    }
    let d: usize = (n % 10) as usize;
    let last = substring(digits, d, d + 1);
    proof {
        assert(last@ =~= seq![digit_chars()[(n % 10) as int]]);
    }
    if n < 10 {
        last
    } else {
        let mut s = decimal_string(n / 10);
        s.append(last.as_str());
        s
    }
}

} // verus!
