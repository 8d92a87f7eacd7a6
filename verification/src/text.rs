//! Character-level text utilities used across the library.
use vstd::prelude::*;

verus! {

broadcast use vstd::string::group_string_axioms;

/// Appends one character to a `String` (std's `String::push`).
/// Trusted: the new contents are the old contents followed by `c`.
#[verifier::external_body]
fn push_char(s: &mut String, c: char)
    ensures
        final(s)@ == old(s)@.push(c),
{
    s.push(c);
}

/// The characters of `s`, in order.
pub fn chars_of(s: &str) -> (r: Vec<char>)
    ensures
        r@ == s@,
{
    let mut r: Vec<char> = Vec::new();
    for c in it: s.chars()
        invariant
            r@ == it.seq().take(it.index() as int),
    {
        r.push(c);
    }
    r
}

/// A `String` holding exactly the characters of `cs`.
pub fn string_of(cs: &Vec<char>) -> (r: String)
    ensures
        r@ == cs@,
{
    let mut r = String::new();
    let mut i: usize = 0;
    while i < cs.len()
        invariant
            i <= cs.len(),
            r@ == cs@.take(i as int),
        decreases cs.len() - i,
    {
        push_char(&mut r, cs[i]);
        assert(cs@.take(i as int + 1) == cs@.take(i as int).push(cs@[i as int]));
        i = i + 1;
    }
    assert(cs@.take(cs.len() as int) == cs@);
    r
}


/// Unicode `White_Space` characters, the set that `char::is_whitespace` tests.
pub open spec fn is_ws(c: char) -> bool {
    ||| ('\u{9}' <= c && c <= '\u{d}')
    ||| c == ' '
    ||| c == '\u{85}'
    ||| c == '\u{a0}'
    ||| c == '\u{1680}'
    ||| ('\u{2000}' <= c && c <= '\u{200a}')
    ||| c == '\u{2028}'
    ||| c == '\u{2029}'
    ||| c == '\u{202f}'
    ||| c == '\u{205f}'
    ||| c == '\u{3000}'
}

pub fn is_whitespace(c: char) -> (r: bool)
    ensures
        r == is_ws(c),
{
    ('\u{9}' <= c && c <= '\u{d}') || c == ' ' || c == '\u{85}' || c == '\u{a0}' || c == '\u{1680}'
        || ('\u{2000}' <= c && c <= '\u{200a}') || c == '\u{2028}' || c == '\u{2029}'
        || c == '\u{202f}' || c == '\u{205f}' || c == '\u{3000}'
}

/// Number of leading whitespace characters of `s`.
pub open spec fn lead_ws(s: Seq<char>) -> nat
    decreases s.len(),
{
    if s.len() > 0 && is_ws(s[0]) {
        1 + lead_ws(s.drop_first())
    } else {
        0
    }
}

/// Number of trailing whitespace characters of `s`.
pub open spec fn trail_ws(s: Seq<char>) -> nat
    decreases s.len(),
{
    if s.len() > 0 && is_ws(s.last()) {
        1 + trail_ws(s.drop_last())
    } else {
        0
    }
}

/// `s` without its leading and trailing whitespace (`str::trim`).
pub open spec fn trimmed(s: Seq<char>) -> Seq<char> {
    let t = s.skip(lead_ws(s) as int);
    t.take(t.len() - trail_ws(t))
}

proof fn lemma_lead_ws_unique(s: Seq<char>, k: int)
    requires
        0 <= k <= s.len(),
        forall|i: int| 0 <= i < k ==> is_ws(#[trigger] s[i]),
        k < s.len() ==> !is_ws(s[k]),
    ensures
        lead_ws(s) == k,
    decreases s.len(),
{
    if k > 0 {
        assert(is_ws(s[0]));
        assert forall|i: int| 0 <= i < k - 1 implies is_ws(#[trigger] s.drop_first()[i]) by {
            assert(s.drop_first()[i] == s[i + 1]);
        }
        if k - 1 < s.drop_first().len() {
            assert(s.drop_first()[k - 1] == s[k]);
        }
        lemma_lead_ws_unique(s.drop_first(), k - 1);
    }
}

proof fn lemma_trail_ws_unique(s: Seq<char>, k: int)
    requires
        0 <= k <= s.len(),
        forall|i: int| s.len() - k <= i < s.len() ==> is_ws(#[trigger] s[i]),
        k < s.len() ==> !is_ws(s[s.len() - k - 1]),
    ensures
        trail_ws(s) == k,
    decreases s.len(),
{
    if k > 0 {
        assert(is_ws(s[s.len() - 1]));
        let t = s.drop_last();
        assert forall|i: int| t.len() - (k - 1) <= i < t.len() implies is_ws(#[trigger] t[i]) by {
            assert(t[i] == s[i]);
        }
        if k - 1 < t.len() {
            assert(t[t.len() - (k - 1) - 1] == s[s.len() - k - 1]);
        }
        lemma_trail_ws_unique(t, k - 1);
    }
}

/// `s` without leading and trailing whitespace.
pub fn trim(s: &str) -> (r: String)
    ensures
        r@ == trimmed(s@),
{
    let cs = chars_of(s);
    let n = cs.len();
    let mut a: usize = 0;
    while a < n && is_whitespace(cs[a])
        invariant
            a <= n,
            n == cs@.len(),
            forall|i: int| 0 <= i < a ==> is_ws(#[trigger] cs@[i]),
        decreases n - a,
    {
        a = a + 1;
    }
    proof {
        lemma_lead_ws_unique(cs@, a as int);
    }
    let mut b: usize = n;
    while b > a && is_whitespace(cs[b - 1])
        invariant
            a <= b <= n,
            n == cs@.len(),
            forall|i: int| b <= i < n ==> is_ws(#[trigger] cs@[i]),
        decreases b,
    {
        b = b - 1;
    }
    let ghost t = cs@.skip(a as int);
    proof {
        assert forall|i: int| t.len() - (n - b) <= i < t.len() implies is_ws(#[trigger] t[i]) by {
            assert(t[i] == cs@[i + a]);
        }
        if n - b < t.len() {
            assert(t[t.len() - (n - b) - 1] == cs@[b - 1]);
        }
        lemma_trail_ws_unique(t, (n - b) as int);
    }
    let mut out: Vec<char> = Vec::new();
    let mut i: usize = a;
    while i < b
        invariant
            a <= i <= b <= n,
            n == cs@.len(),
            out@ == cs@.subrange(a as int, i as int),
        decreases b - i,
    {
        out.push(cs[i]);
        i = i + 1;
    }
    assert(out@ =~= t.take(t.len() - trail_ws(t)));
    string_of(&out)
}


/// Splitting state after reading `s` left to right: the finished pieces
/// and the piece being read.
pub open spec fn split_fold(s: Seq<char>, sep: char) -> (Seq<Seq<char>>, Seq<char>)
    decreases s.len(),
{
    if s.len() == 0 {
        (Seq::empty(), Seq::empty())
    } else {
        let (done, cur) = split_fold(s.drop_last(), sep);
        if s.last() == sep {
            (done.push(cur), Seq::empty())
        } else {
            (done, cur.push(s.last()))
        }
    }
}

/// The pieces of `s` between occurrences of `sep` (`str::split` on a char):
/// never empty, and the pieces joined back with `sep` give `s`.
pub open spec fn split_on(s: Seq<char>, sep: char) -> Seq<Seq<char>> {
    let (done, cur) = split_fold(s, sep);
    done.push(cur)
}

/// Splits `s` at every `sep`.
pub fn split_char(s: &str, sep: char) -> (r: Vec<String>)
    ensures
        r.deep_view() == split_on(s@, sep),
{
    let cs = chars_of(s);
    let mut done: Vec<String> = Vec::new();
    let mut cur: Vec<char> = Vec::new();
    let mut i: usize = 0;
    while i < cs.len()
        invariant
            i <= cs.len(),
            cs@ == s@,
            (done.deep_view(), cur@) == split_fold(cs@.take(i as int), sep),
        decreases cs.len() - i,
    {
        let c = cs[i];
        assert(cs@.take(i as int + 1).drop_last() == cs@.take(i as int));
        if c == sep {
            let piece = string_of(&cur);
            done.push(piece);
            cur = Vec::new();
            assert(done.deep_view() =~= split_fold(cs@.take(i as int), sep).0.push(piece@));
        } else {
            cur.push(c);
        }
        i = i + 1;
    }
    assert(cs@.take(cs.len() as int) == cs@);
    let last = string_of(&cur);
    done.push(last);
    assert(done.deep_view() =~= split_on(s@, sep));
    done
}

/// Whether two texts hold the same characters.
pub fn str_eq(a: &str, b: &str) -> (r: bool)
    ensures
        r == (a@ == b@),
{
    let x = a.to_owned();
    let y = b.to_owned();
    x == y
}

/// Whether `s` begins with `p`.
pub fn starts_with(s: &str, p: &str) -> (r: bool)
    ensures
        r == (p@.len() <= s@.len() && s@.take(p@.len() as int) == p@),
{
    let cs = chars_of(s);
    let ps = chars_of(p);
    if ps.len() > cs.len() {
        return false;
    }
    let mut i: usize = 0;
    while i < ps.len()
        invariant
            i <= ps.len() <= cs.len(),
            cs@ == s@,
            ps@ == p@,
            forall|j: int| 0 <= j < i ==> cs@[j] == ps@[j],
        decreases ps.len() - i,
    {
        if cs[i] != ps[i] {
            assert(s@.take(p@.len() as int)[i as int] != p@[i as int]);
            return false;
        }
        i = i + 1;
    }
    assert(s@.take(p@.len() as int) =~= p@);
    true
}

/// `s` with `p` removed from its front, when `s` begins with `p`
/// (`str::strip_prefix`).
pub fn strip_prefix(s: &str, p: &str) -> (r: Option<String>)
    ensures
        r matches Some(t) ==> p@.len() <= s@.len() && s@.take(p@.len() as int) == p@
            && t@ == s@.skip(p@.len() as int),
        r is None ==> !(p@.len() <= s@.len() && s@.take(p@.len() as int) == p@),
{
    if !starts_with(s, p) {
        return None;
    }
    let cs = chars_of(s);
    let k = p.unicode_len();
    let mut out: Vec<char> = Vec::new();
    let mut i: usize = k;
    while i < cs.len()
        invariant
            k <= i <= cs.len(),
            cs@ == s@,
            out@ == cs@.subrange(k as int, i as int),
        decreases cs.len() - i,
    {
        out.push(cs[i]);
        i = i + 1;
    }
    assert(out@ =~= s@.skip(k as int));
    Some(string_of(&out))
}

/// Every occurrence of `from` in `s` replaced by `to`.
pub open spec fn replaced(s: Seq<char>, from: char, to: Seq<char>) -> Seq<char>
    decreases s.len(),
{
    if s.len() == 0 {
        Seq::empty()
    } else {
        replaced(s.drop_last(), from, to) + (if s.last() == from {
            to
        } else {
            seq![s.last()]
        })
    }
}

/// `s` with every `from` replaced by `to` (`str::replace` with a char pattern).
pub fn replace_char(s: &str, from: char, to: &str) -> (r: String)
    ensures
        r@ == replaced(s@, from, to@),
{
    let cs = chars_of(s);
    let ts = chars_of(to);
    let mut out: Vec<char> = Vec::new();
    let mut i: usize = 0;
    while i < cs.len()
        invariant
            i <= cs.len(),
            cs@ == s@,
            ts@ == to@,
            out@ == replaced(cs@.take(i as int), from, to@),
        decreases cs.len() - i,
    {
        assert(cs@.take(i as int + 1).drop_last() == cs@.take(i as int));
        if cs[i] == from {
            let mut j: usize = 0;
            let ghost before = out@;
            while j < ts.len()
                invariant
                    j <= ts.len(),
                    ts@ == to@,
                    out@ == before + ts@.take(j as int),
                decreases ts.len() - j,
            {
                out.push(ts[j]);
                assert(ts@.take(j as int + 1) == ts@.take(j as int).push(ts@[j as int]));
                j = j + 1;
            }
            assert(ts@.take(ts.len() as int) == ts@);
        } else {
            out.push(cs[i]);
            assert(out@ =~= replaced(cs@.take(i as int), from, to@) + seq![cs@[i as int]]);
        }
        i = i + 1;
    }
    assert(cs@.take(cs.len() as int) == cs@);
    string_of(&out)
}

/// Every non-overlapping occurrence of `pat`, read left to right, replaced
/// by `to` (`str::replace` with a non-empty text pattern).
pub open spec fn replaced_text(s: Seq<char>, pat: Seq<char>, to: Seq<char>) -> Seq<char>
    decreases s.len(),
{
    if s.len() == 0 {
        Seq::empty()
    } else if pat.len() > 0 && pat.len() <= s.len() && s.take(pat.len() as int) == pat {
        to + replaced_text(s.skip(pat.len() as int), pat, to)
    } else {
        seq![s[0]] + replaced_text(s.drop_first(), pat, to)
    }
}

/// Whether `pat` occurs somewhere in `s`.
pub open spec fn occurs_in(pat: Seq<char>, s: Seq<char>) -> bool {
    exists|i: int| 0 <= i && i + pat.len() <= s.len() && #[trigger] s.subrange(i, i + pat.len()) == pat
}

/// A text in which the pattern does not occur comes back unchanged.
pub proof fn lemma_replaced_text_absent(s: Seq<char>, pat: Seq<char>, to: Seq<char>)
    requires
        !occurs_in(pat, s),
    ensures
        replaced_text(s, pat, to) == s,
    decreases s.len(),
{
    if s.len() > 0 {
        let t = s.drop_first();
        if pat.len() <= s.len() {
            assert(s.subrange(0, 0int + pat.len()) =~= s.take(pat.len() as int));
            assert(s.take(pat.len() as int) != pat);
        }
        assert forall|i: int| 0 <= i && i + pat.len() <= t.len() implies #[trigger] t.subrange(i, i + pat.len()) != pat by {
            assert(t.subrange(i, i + pat.len()) =~= s.subrange(i + 1, i + 1 + pat.len()));
        }
        lemma_replaced_text_absent(t, pat, to);
        assert(seq![s[0]] + t =~= s);
    }
}

fn matches_at(cs: &Vec<char>, i: usize, ps: &Vec<char>) -> (r: bool)
    requires
        i <= cs.len(),
    ensures
        r == (ps@.len() <= cs@.skip(i as int).len() && cs@.skip(i as int).take(ps@.len() as int) == ps@),
{
    if ps.len() > cs.len() - i {
        return false;
    }
    let mut j: usize = 0;
    while j < ps.len()
        invariant
            j <= ps.len(),
            i + ps.len() <= cs.len(),
            forall|t: int| 0 <= t < j ==> cs@[i + t] == ps@[t],
        decreases ps.len() - j,
    {
        if cs[i + j] != ps[j] {
            assert(cs@.skip(i as int).take(ps@.len() as int)[j as int] != ps@[j as int]);
            return false;
        }
        j = j + 1;
    }
    assert(cs@.skip(i as int).take(ps@.len() as int) =~= ps@);
    true
}

/// `s` with every `pat` replaced by `to`: see `replaced_text`.
pub fn replace_text(s: &str, pat: &str, to: &str) -> (r: String)
    requires
        pat@.len() > 0,
    ensures
        r@ == replaced_text(s@, pat@, to@),
{
    let cs = chars_of(s);
    let ps = chars_of(pat);
    let ts = chars_of(to);
    let mut out: Vec<char> = Vec::new();
    let mut i: usize = 0;
    assert(cs@.skip(0) == cs@);
    while i < cs.len()
        invariant
            i <= cs.len(),
            cs@ == s@,
            ps@ == pat@,
            ts@ == to@,
            ps@.len() > 0,
            out@ + replaced_text(cs@.skip(i as int), ps@, ts@) == replaced_text(s@, pat@, to@),
        decreases cs.len() - i,
    {
        let ghost rest = cs@.skip(i as int);
        if matches_at(&cs, i, &ps) {
            let ghost before = out@;
            let mut j: usize = 0;
            while j < ts.len()
                invariant
                    j <= ts.len(),
                    ts@ == to@,
                    out@ == before + ts@.take(j as int),
                decreases ts.len() - j,
            {
                out.push(ts[j]);
                assert(ts@.take(j as int + 1) == ts@.take(j as int).push(ts@[j as int]));
                j = j + 1;
            }
            assert(ts@.take(ts.len() as int) == ts@);
            assert(rest.skip(ps@.len() as int) == cs@.skip(i + ps.len()));
            assert(out@ + replaced_text(cs@.skip(i + ps.len()), ps@, ts@) =~= before + replaced_text(rest, ps@, ts@));
            i = i + ps.len();
        } else {
            let ghost before = out@;
            out.push(cs[i]);
            assert(rest.drop_first() == cs@.skip(i as int + 1));
            assert(rest[0] == cs@[i as int]);
            assert(out@ + replaced_text(cs@.skip(i as int + 1), ps@, ts@) =~= before + replaced_text(rest, ps@, ts@));
            i = i + 1;
        }
    }
    assert(cs@.skip(cs.len() as int) =~= Seq::<char>::empty());
    assert(out@ + replaced_text(Seq::<char>::empty(), ps@, ts@) =~= out@);
    string_of(&out)
}

/// Concatenation of two texts.
pub fn concat(a: &str, b: &str) -> (r: String)
    ensures
        r@ == a@ + b@,
{
    let mut r = a.to_owned();
    r.append(b);
    r
}

/// The lowercase form of a text, as `str::to_lowercase` computes it from the
/// Unicode tables.
pub uninterp spec fn lowercase_of(s: Seq<char>) -> Seq<char>;

/// Whether every character of `s` is ASCII.
pub open spec fn is_ascii_text(s: Seq<char>) -> bool {
    forall|i: int| 0 <= i < s.len() ==> (s[i] as u32) < 128
}

/// An ASCII capital as its small letter; any other character as itself.
pub open spec fn ascii_lower_char(c: char) -> char {
    if 'A' <= c && c <= 'Z' { ((c as u32) + 32) as char } else { c }
}

/// Each character through `ascii_lower_char`.
pub open spec fn ascii_lowered(s: Seq<char>) -> Seq<char> {
    s.map_values(|c: char| ascii_lower_char(c))
}

/// The lowercase form of a text: ASCII lowercasing for an ASCII text,
/// `lowercase_of` for any other.
pub open spec fn lowered(s: Seq<char>) -> Seq<char> {
    if is_ascii_text(s) { ascii_lowered(s) } else { lowercase_of(s) }
}

/// std's `str::to_lowercase`. Trusted: the result is the named
/// `lowercase_of` of the argument, and for a text of ASCII characters it is
/// the text with `A`..`Z` turned into `a`..`z` and everything else kept (the
/// Unicode lowercase mapping of ASCII); nothing more is stated of it.
#[verifier::external_body]
pub(crate) fn lowercase(s: &str) -> (r: String)
    ensures
        r@ == lowercase_of(s@),
        is_ascii_text(s@) ==> r@ == ascii_lowered(s@),
{
    s.to_lowercase()
}

} // verus!
