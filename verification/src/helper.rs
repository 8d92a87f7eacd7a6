//! Cell cleaning and content fingerprints.
use vstd::prelude::*;
use sha2::Digest;
use crate::number::{hex_lower, hex_of, lemma_hex_len};
use crate::text::{chars_of, string_of, replace_char, trim, trimmed, replaced};

verus! {

/// The SHA-256 digest of the UTF-8 encoding of a text.
pub uninterp spec fn sha256_of(text: Seq<char>) -> Seq<u8>;

/// sha2's `Sha256` (`new`, `update` with the text's UTF-8 bytes, `finalize`).
/// Trusted: the digest is the named `sha256_of` of the text, and it is
/// 32 bytes long (`Sha256`'s output size).
#[verifier::external_body]
fn sha256_digest(content: &str) -> (r: Vec<u8>)
    ensures
        r@ == sha256_of(content@),
        r@.len() == 32,
{
    let mut hasher = sha2::Sha256::new();
    hasher.update(content.as_bytes());
    hasher.finalize().to_vec()
}

/// The fingerprint of `content`: its SHA-256 digest as 64 lowercase hex digits.
pub fn calculate_hash(content: String) -> (r: String)
    ensures
        r@ == hex_of(sha256_of(content@)),
        r@.len() == 64,
{
    let digest = sha256_digest(content.as_str());
    proof {
        lemma_hex_len(digest@);
    }
    hex_lower(&digest)
}


/// `s` without its leading run of `c` (`str::trim_start_matches` with a char).
pub open spec fn without_leading(s: Seq<char>, c: char) -> Seq<char>
    decreases s.len(),
{
    if s.len() > 0 && s[0] == c {
        without_leading(s.drop_first(), c)
    } else {
        s
    }
}

/// Whether a character survives the control-character filter: everything
/// above U+001F, and tab, line feed and carriage return.
pub open spec fn kept_char(c: char) -> bool {
    c > '\u{1f}' || c == '\t' || c == '\n' || c == '\r'
}

/// The characters of `s` that `kept_char` lets through, in order.
pub open spec fn without_controls(s: Seq<char>) -> Seq<char>
    decreases s.len(),
{
    if s.len() == 0 {
        Seq::empty()
    } else {
        without_controls(s.drop_last()) + (if kept_char(s.last()) {
            seq![s.last()]
        } else {
            Seq::empty()
        })
    }
}

/// What `clean_string` makes of a text: leading byte-order marks dropped,
/// zero-width spaces and non-joiners removed, non-breaking spaces made plain
/// spaces, control characters other than tab, LF and CR removed, and the
/// result trimmed.
pub open spec fn cleaned(s: Seq<char>) -> Seq<char> {
    let a = without_leading(s, '\u{feff}');
    let b = replaced(a, '\u{200b}', Seq::empty());
    let c = replaced(b, '\u{200c}', Seq::empty());
    let d = replaced(c, '\u{a0}', seq![' ']);
    trimmed(without_controls(d))
}

fn drop_leading(s: &str, c: char) -> (r: String)
    ensures
        r@ == without_leading(s@, c),
{
    let cs = chars_of(s);
    let mut i: usize = 0;
    assert(cs@.skip(0) == cs@);
    while i < cs.len() && cs[i] == c
        invariant
            i <= cs.len(),
            cs@ == s@,
            without_leading(cs@.skip(i as int), c) == without_leading(s@, c),
        decreases cs.len() - i,
    {
        assert(cs@.skip(i as int).drop_first() == cs@.skip(i as int + 1));
        i = i + 1;
    }
    let mut out: Vec<char> = Vec::new();
    let mut j: usize = i;
    while j < cs.len()
        invariant
            i <= j <= cs.len(),
            out@ == cs@.subrange(i as int, j as int),
        decreases cs.len() - j,
    {
        out.push(cs[j]);
        j = j + 1;
    }
    assert(out@ == cs@.skip(i as int));
    string_of(&out)
}

fn drop_controls(s: &str) -> (r: String)
    ensures
        r@ == without_controls(s@),
{
    let cs = chars_of(s);
    let mut out: Vec<char> = Vec::new();
    let mut i: usize = 0;
    while i < cs.len()
        invariant
            i <= cs.len(),
            cs@ == s@,
            out@ == without_controls(cs@.take(i as int)),
        decreases cs.len() - i,
    {
        assert(cs@.take(i as int + 1).drop_last() == cs@.take(i as int));
        let c = cs[i];
        if c > '\u{1f}' || c == '\t' || c == '\n' || c == '\r' {
            out.push(c);
        }
        assert(out@ =~= without_controls(cs@.take(i as int + 1)));
        i = i + 1;
    }
    assert(cs@.take(cs.len() as int) == cs@);
    string_of(&out)
}

/// Cleans a CSV cell or header: see `cleaned`.
pub fn clean_string(s: &str) -> (r: String)
    ensures
        r@ == cleaned(s@),
{
    let a = drop_leading(s, '\u{feff}');
    let b = replace_char(a.as_str(), '\u{200b}', "");
    let c = replace_char(b.as_str(), '\u{200c}', "");
    let d = replace_char(c.as_str(), '\u{a0}', " ");
    proof {
        reveal_strlit("");
        reveal_strlit(" ");
        assert(""@ =~= Seq::<char>::empty());
        assert(" "@ =~= seq![' ']);
    }
    let e = drop_controls(d.as_str());
    trim(e.as_str())
}

} // verus!
