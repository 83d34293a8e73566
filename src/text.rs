//! String utilities: HTML escaping, whitespace handling and slugs.

use vstd::prelude::*;
use vstd::std_specs::iter::IteratorSpec;

verus! {

/// What `htmlescape::encode_minimal` writes for one character.
pub open spec fn escape_char(c: char) -> Seq<char> {
    if c == '"' {
        "&quot;"@
    } else if c == '&' {
        "&amp;"@
    } else if c == '\'' {
        "&#x27;"@
    } else if c == '<' {
        "&lt;"@
    } else if c == '>' {
        "&gt;"@
    } else {
        seq![c]
    }
}

/// The minimal HTML escaping of `s`: each special character replaced by its entity.
pub open spec fn escaped(s: Seq<char>) -> Seq<char>
    decreases s.len(),
{
    if s.len() == 0 {
        Seq::empty()
    } else {
        escaped(s.drop_last()) + escape_char(s.last())
    }
}

/// A character that HTML escaping leaves alone.
pub open spec fn is_plain_char(c: char) -> bool {
    c != '"' && c != '&' && c != '\'' && c != '<' && c != '>'
}

/// Relies on `htmlescape::encode_minimal`, which replaces `"`, `&`, `'`, `<` and `>`
/// by their entities and copies every other character.
#[verifier::external_body]
fn encode_minimal(s: &str) -> (r: String)
    ensures
        r@ == escaped(s@),
{
    htmlescape::encode_minimal(s)
}

/// Escapes the five HTML special characters of `s`.
pub fn escape_html(s: &str) -> (r: String)
    ensures
        r@ == escaped(s@),
{
    encode_minimal(s)
}

/// Escaping text with no special character gives the text back.
pub proof fn lemma_escape_plain(s: Seq<char>)
    requires
        forall|i: int| 0 <= i < s.len() ==> is_plain_char(#[trigger] s[i]),
    ensures
        escaped(s) == s,
    decreases s.len(),
{
    if s.len() > 0 {
        lemma_escape_plain(s.drop_last());
        assert(is_plain_char(s[s.len() - 1]));
        assert(s.drop_last().push(s.last()) == s);
    }
}

/// Relies on `String::push`, which appends one character.
#[verifier::external_body]
pub(crate) fn push_char(s: &mut String, c: char)
    ensures
        final(s)@ == old(s)@.push(c),
{
    s.push(c)
}

/// The characters of `s`, in order.
pub(crate) fn chars_of(s: &str) -> (r: Vec<char>)
    ensures
        r@ == s@,
{
    broadcast use vstd::string::axiom_spec_iter, vstd::string::next_postcondition;

    let mut r: Vec<char> = Vec::new();
    let mut it = s.chars();
    loop
        invariant
            it.obeys_prophetic_iter_laws(),
            r@ + it.remaining() == s@,
            it.decrease() is Some,
        ensures
            r@ == s@,
        decreases it.decrease()->0,
    {
        match it.next() {
            Some(c) => {
                r.push(c);
            },
            None => {
                assert(it.remaining().len() == 0);
                assert(r@ + it.remaining() =~= r@);
                break ;
            },
        }
    }
    r
}

/// Whether `s` begins with `p`.
pub open spec fn starts_with(s: Seq<char>, p: Seq<char>) -> bool {
    p.len() <= s.len() && s.take(p.len() as int) == p
}

/// Whether `s` ends with `p`.
pub open spec fn ends_with(s: Seq<char>, p: Seq<char>) -> bool {
    p.len() <= s.len() && s.skip(s.len() - p.len()) == p
}

/// Whether `cs[at..]` begins with `p`.
fn matches_at(cs: &Vec<char>, at: usize, p: &Vec<char>) -> (r: bool)
    requires
        at + p@.len() <= cs@.len(),
    ensures
        r == (cs@.subrange(at as int, at + p@.len()) == p@),
{
    let mut i: usize = 0;
    while i < p.len()
        invariant
            at + p@.len() <= cs@.len(),
            i <= p@.len(),
            forall|k: int| 0 <= k < i ==> cs@[at + k] == p@[k],
        decreases p.len() - i,
    {
        assert(at + i < cs.len());
        if cs[at + i] != p[i] {
            assert(cs@.subrange(at as int, at + p@.len())[i as int] != p@[i as int]);
            return false;
        }
        i = i + 1;
    }
    assert(cs@.subrange(at as int, at + p@.len()) == p@);
    true
}

/// Whether `s` begins with `p`.
pub fn has_prefix(s: &str, p: &str) -> (r: bool)
    ensures
        r == starts_with(s@, p@),
{
    let cs = chars_of(s);
    let ps = chars_of(p);
    if ps.len() > cs.len() {
        return false;
    }
    matches_at(&cs, 0, &ps)
}

/// Whether `s` ends with `p`.
pub fn has_suffix(s: &str, p: &str) -> (r: bool)
    ensures
        r == ends_with(s@, p@),
{
    let cs = chars_of(s);
    let ps = chars_of(p);
    if ps.len() > cs.len() {
        return false;
    }
    assert(cs@.skip(cs@.len() - ps@.len()) == cs@.subrange(cs.len() - ps.len(), cs.len() - ps.len() + ps@.len()));
    matches_at(&cs, cs.len() - ps.len(), &ps)
}

/// The first `n` characters of `s`.
pub fn prefix_of(s: &str, n: usize) -> (r: String)
    requires
        n <= s@.len(),
    ensures
        r@ == s@.take(n as int),
{
    let cs = chars_of(s);
    string_of_range(&cs, 0, n)
}

/// The number of characters of `s`.
pub fn char_count(s: &str) -> (r: usize)
    ensures
        r == s@.len(),
{
    chars_of(s).len()
}

/// Whether two texts hold the same characters.
pub fn same_text(a: &str, b: &str) -> (r: bool)
    ensures
        r == (a@ == b@),
{
    let ac = chars_of(a);
    let bc = chars_of(b);
    if ac.len() != bc.len() {
        return false;
    }
    let r = matches_at(&ac, 0, &bc);
    assert(ac@.subrange(0, bc@.len() as int) == ac@);
    r
}

/// A one-character string.
pub fn char_string(c: char) -> (r: String)
    ensures
        r@ == seq![c],
{
    let mut r = String::new();
    push_char(&mut r, c);
    r
}

/// The `White_Space` characters of Unicode, as `char::is_whitespace` documents them.
pub open spec fn is_white(c: char) -> bool {
    let n = c as u32;
    (9 <= n && n <= 13) || n == 32 || n == 0x85 || n == 0xA0 || n == 0x1680 || (0x2000 <= n
        && n <= 0x200A) || n == 0x2028 || n == 0x2029 || n == 0x202F || n == 0x205F || n
        == 0x3000
}

/// Whether `c` is white space, as `char::is_whitespace` defines it.
pub fn is_white_space(c: char) -> (r: bool)
    ensures
        r == is_white(c),
{
    let n = c as u32;
    (9 <= n && n <= 13) || n == 32 || n == 0x85 || n == 0xA0 || n == 0x1680 || (0x2000 <= n
        && n <= 0x200A) || n == 0x2028 || n == 0x2029 || n == 0x202F || n == 0x205F || n
        == 0x3000
}

/// Text made of white space only (the empty text included).
pub open spec fn is_blank(s: Seq<char>) -> bool {
    forall|i: int| 0 <= i < s.len() ==> is_white(#[trigger] s[i])
}

/// Whether `s` holds white space only.
pub fn blank(s: &str) -> (r: bool)
    ensures
        r == is_blank(s@),
{
    let cs = chars_of(s);
    let mut i: usize = 0;
    while i < cs.len()
        invariant
            cs@ == s@,
            i <= cs.len(),
            forall|k: int| 0 <= k < i ==> is_white(#[trigger] s@[k]),
        decreases cs.len() - i,
    {
        if !is_white_space(cs[i]) {
            return false;
        }
        i = i + 1;
    }
    true
}

/// Number of white-space characters at the start of `s`.
pub open spec fn lead_white(s: Seq<char>) -> nat
    decreases s.len(),
{
    if s.len() > 0 && is_white(s[0]) {
        1 + lead_white(s.skip(1))
    } else {
        0
    }
}

/// Number of white-space characters at the end of `s`.
pub open spec fn trail_white(s: Seq<char>) -> nat
    decreases s.len(),
{
    if s.len() > 0 && is_white(s.last()) {
        1 + trail_white(s.drop_last())
    } else {
        0
    }
}

/// `s` without white space at either end.
pub open spec fn trimmed(s: Seq<char>) -> Seq<char> {
    let t = s.skip(lead_white(s) as int);
    t.subrange(0, t.len() - trail_white(t))
}

proof fn lemma_lead_white_le(s: Seq<char>)
    ensures
        lead_white(s) <= s.len(),
    decreases s.len(),
{
    if s.len() > 0 && is_white(s[0]) {
        lemma_lead_white_le(s.skip(1));
    }
}

proof fn lemma_trail_white_le(s: Seq<char>)
    ensures
        trail_white(s) <= s.len(),
    decreases s.len(),
{
    if s.len() > 0 && is_white(s.last()) {
        lemma_trail_white_le(s.drop_last());
    }
}

/// Copies `cs[from..to]` into a new string.
pub(crate) fn string_of_range(cs: &Vec<char>, from: usize, to: usize) -> (r: String)
    requires
        from <= to <= cs@.len(),
    ensures
        r@ == cs@.subrange(from as int, to as int),
{
    let mut r = String::new();
    let mut i: usize = from;
    while i < to
        invariant
            from <= i <= to <= cs@.len(),
            r@ == cs@.subrange(from as int, i as int),
        decreases to - i,
    {
        push_char(&mut r, cs[i]);
        assert(cs@.subrange(from as int, i + 1) == cs@.subrange(from as int, i as int).push(cs@[i as int]));
        i = i + 1;
    }
    r
}

/// `s` with leading and trailing white space removed.
pub fn trim(s: &str) -> (r: String)
    ensures
        r@ == trimmed(s@),
{
    let cs = chars_of(s);
    let mut lo: usize = 0;
    assert(s@.skip(0) == s@);
    while lo < cs.len() && is_white_space(cs[lo])
        invariant
            cs@ == s@,
            lo <= cs.len(),
            lead_white(s@) == lo + lead_white(s@.skip(lo as int)),
        decreases cs.len() - lo,
    {
        assert(s@.skip(lo as int).skip(1) == s@.skip(lo + 1));
        lo = lo + 1;
    }
    let ghost t = s@.skip(lo as int);
    assert(lead_white(t) == 0);
    let mut hi: usize = cs.len();
    assert(t.subrange(0, hi - lo) == t);
    while hi > lo && is_white_space(cs[hi - 1])
        invariant
            cs@ == s@,
            lo <= hi <= cs.len(),
            t == s@.skip(lo as int),
            trail_white(t) == (cs.len() - hi) + trail_white(t.subrange(0, hi - lo)),
        decreases hi,
    {
        assert(t.subrange(0, hi - lo).drop_last() == t.subrange(0, hi - 1 - lo));
        hi = hi - 1;
    }
    assert(trail_white(t.subrange(0, hi - lo)) == 0);
    assert(t.subrange(0, t.len() - trail_white(t)) == cs@.subrange(lo as int, hi as int));
    string_of_range(&cs, lo, hi)
}

/// What `str::to_lowercase` returns for a text.
pub uninterp spec fn lower_of(s: Seq<char>) -> Seq<char>;

/// Whether `char::is_alphanumeric` holds of a character.
pub uninterp spec fn alphanumeric(c: char) -> bool;

/// Relies on `str::to_lowercase`: the result depends on the characters alone, and
/// an empty text stays empty.
#[verifier::external_body]
fn to_lowercase(s: &str) -> (r: String)
    ensures
        r@ == lower_of(s@),
        s@.len() == 0 ==> r@.len() == 0,
{
    s.to_lowercase()
}

/// Relies on `char::is_alphanumeric` (the Unicode `Alphabetic` or `Numeric` property).
#[verifier::external_body]
fn is_alphanumeric(c: char) -> (r: bool)
    ensures
        r == alphanumeric(c),
{
    c.is_alphanumeric()
}

/// A character of a slug: alphanumeric characters stay, all others become `-`.
pub open spec fn slug_char(c: char) -> char {
    if alphanumeric(c) {
        c
    } else {
        '-'
    }
}

/// `s` with its runs of `-` collapsed to one and those at either end removed;
/// that is, the non-empty pieces between dashes, joined by single dashes.
pub open spec fn squeeze_dashes(s: Seq<char>) -> Seq<char>
    decreases s.len(),
{
    if s.len() == 0 {
        Seq::empty()
    } else if s.last() == '-' {
        squeeze_dashes(s.drop_last())
    } else {
        let before = s.drop_last();
        if before.len() > 0 && before.last() == '-' && squeeze_dashes(before).len() > 0 {
            squeeze_dashes(before) + seq!['-', s.last()]
        } else {
            squeeze_dashes(before).push(s.last())
        }
    }
}

/// The slug of an already lower-cased text.
pub open spec fn slug_of(lowered: Seq<char>) -> Seq<char> {
    squeeze_dashes(lowered.map_values(|c: char| slug_char(c)))
}

/// The slug of a text: lower-cased, every non-alphanumeric character a separator,
/// the remaining runs joined by single dashes.
pub open spec fn slug(text: Seq<char>) -> Seq<char> {
    slug_of(lower_of(text))
}

/// Collapses each run of `-` to one dash and drops the dashes at either end.
pub fn collapse_dashes(s: &str) -> (r: String)
    ensures
        r@ == squeeze_dashes(s@),
{
    let cs = chars_of(s);
    let mut r = String::new();
    let mut started = false;
    let mut i: usize = 0;
    while i < cs.len()
        invariant
            cs@ == s@,
            started == (r@.len() > 0),
            i <= cs.len(),
            r@ == squeeze_dashes(s@.take(i as int)),
        decreases cs.len() - i,
    {
        let c = cs[i];
        let ghost pre = s@.take(i as int);
        assert(s@.take(i + 1).drop_last() == pre);
        assert(s@.take(i + 1).last() == c);
        if c != '-' {
            if i > 0 && started {
                assert(pre.last() == cs@[i - 1]);
                if cs[i - 1] == '-' {
                    push_char(&mut r, '-');
                }
            }
            push_char(&mut r, c);
            started = true;
        }
        i = i + 1;
    }
    assert(s@.take(cs.len() as int) == s@);
    r
}

/// Builds the slug of a text that is already lower-cased.
pub fn slug_of_lowercase(lowered: &str) -> (r: String)
    ensures
        r@ == slug_of(lowered@),
{
    let cs = chars_of(lowered);
    let mut mapped = String::new();
    let mut i: usize = 0;
    while i < cs.len()
        invariant
            cs@ == lowered@,
            i <= cs.len(),
            mapped@ == lowered@.take(i as int).map_values(|c: char| slug_char(c)),
        decreases cs.len() - i,
    {
        let c = if is_alphanumeric(cs[i]) {
            cs[i]
        } else {
            '-'
        };
        push_char(&mut mapped, c);
        assert(lowered@.take(i + 1).map_values(|c: char| slug_char(c)) =~= lowered@.take(
            i as int,
        ).map_values(|c: char| slug_char(c)).push(c));
        i = i + 1;
    }
    assert(lowered@.take(cs.len() as int) == lowered@);
    collapse_dashes(mapped.as_str())
}

/// Converts text into a URL-safe slug.
pub fn into_slug(text: &str) -> (r: String)
    ensures
        r@ == slug(text@),
        text@.len() == 0 ==> r@.len() == 0,
{
    let lowered = to_lowercase(text);
    proof {
        if text@.len() == 0 {
            assert(lowered@.map_values(|c: char| slug_char(c)) =~= Seq::<char>::empty());
        }
    }
    slug_of_lowercase(lowered.as_str())
}

} // verus!
