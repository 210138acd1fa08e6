//! Text helpers shared by the guardrails, the verifications and the audit log.

use vstd::prelude::*;

verus! {

/// What `str::to_lowercase` returns for a string with these characters.
pub uninterp spec fn spec_to_lowercase(s: Seq<char>) -> Seq<char>;

/// Calls `str::to_lowercase`. The contract only names its result: the
/// Unicode lowercase mapping is a function of the input alone.
#[verifier::external_body]
pub(crate) fn to_lowercase(s: &str) -> (r: String)
    ensures
        r@ == spec_to_lowercase(s@),
{
    s.to_lowercase()
}

/// The characters that Unicode calls white space (the `White_Space`
/// property, by which `char::is_whitespace` and `str::trim` go).
pub open spec fn is_white_space(c: char) -> bool {
    let n = c as u32;
    ||| 0x9 <= n <= 0xD
    ||| n == 0x20
    ||| n == 0x85
    ||| n == 0xA0
    ||| n == 0x1680
    ||| 0x2000 <= n <= 0x200A
    ||| n == 0x2028
    ||| n == 0x2029
    ||| n == 0x202F
    ||| n == 0x205F
    ||| n == 0x3000
}

/// The index of the first character, from `i` on, that is not white space
/// (the length where there is none).
pub open spec fn skip_white_from(s: Seq<char>, i: int) -> int
    decreases s.len() - i,
{
    if i < 0 || i >= s.len() || !is_white_space(s[i]) {
        i
    } else {
        skip_white_from(s, i + 1)
    }
}

/// The end of `s[..j]` once the white space that ends it is dropped.
pub open spec fn drop_white_before(s: Seq<char>, j: int) -> int
    decreases j,
{
    if j <= 0 || j > s.len() || !is_white_space(s[j - 1]) {
        j
    } else {
        drop_white_before(s, j - 1)
    }
}

/// `s` without its leading and trailing white space.
pub open spec fn trimmed(s: Seq<char>) -> Seq<char> {
    let a = skip_white_from(s, 0);
    let b = drop_white_before(s, s.len() as int);
    if a < b {
        s.subrange(a, b)
    } else {
        Seq::empty()
    }
}

proof fn lemma_skip_shift(c: char, s: Seq<char>, i: int)
    requires
        0 <= i <= s.len(),
    ensures
        skip_white_from(seq![c] + s, i + 1) == skip_white_from(s, i) + 1,
    decreases s.len() - i,
{
    let t = seq![c] + s;
    if i < s.len() {
        assert(t[i + 1] == s[i]);
        if is_white_space(s[i]) {
            lemma_skip_shift(c, s, i + 1);
        }
    }
}

proof fn lemma_drop_shift(c: char, s: Seq<char>, j: int)
    requires
        0 <= j <= s.len(),
        is_white_space(c),
    ensures
        drop_white_before(seq![c] + s, j + 1)
            == if drop_white_before(s, j) == 0 { 0 } else { drop_white_before(s, j) + 1 },
    decreases j,
{
    let t = seq![c] + s;
    if j > 0 {
        assert(t[j] == s[j - 1]);
        if is_white_space(s[j - 1]) {
            lemma_drop_shift(c, s, j - 1);
        }
    } else {
        assert(t[0] == c);
        assert(drop_white_before(t, 0) == 0);
    }
}

proof fn lemma_skip_push(c: char, s: Seq<char>, i: int)
    requires
        0 <= i <= s.len(),
        is_white_space(c),
    ensures
        skip_white_from(s.push(c), i)
            == if skip_white_from(s, i) == s.len() { s.len() + 1int } else { skip_white_from(s, i) },
    decreases s.len() - i,
{
    let t = s.push(c);
    if i < s.len() {
        assert(t[i] == s[i]);
        if is_white_space(s[i]) {
            lemma_skip_push(c, s, i + 1);
        }
    } else {
        assert(t[i] == c);
        assert(skip_white_from(t, i + 1) == i + 1);
    }
}

proof fn lemma_drop_push(c: char, s: Seq<char>, j: int)
    requires
        0 <= j <= s.len(),
    ensures
        drop_white_before(s.push(c), j) == drop_white_before(s, j),
    decreases j,
{
    if j > 0 {
        assert(s.push(c)[j - 1] == s[j - 1]);
        lemma_drop_push(c, s, j - 1);
    }
}

/// White space before or after a text does not change what trimming it
/// gives.
pub proof fn law_trim_ignores_outer_white_space(c: char, s: Seq<char>)
    requires
        is_white_space(c),
    ensures
        trimmed(seq![c] + s) == trimmed(s),
        trimmed(s.push(c)) == trimmed(s),
{
    let t = seq![c] + s;
    let a = skip_white_from(s, 0);
    let b = drop_white_before(s, s.len() as int);
    lemma_skip_bounds(s, 0);
    lemma_drop_bounds(s, s.len() as int);
    assert(t[0] == c);
    lemma_skip_shift(c, s, 0);
    lemma_drop_shift(c, s, s.len() as int);
    if a < b {
        assert(t.subrange(a + 1, b + 1) =~= s.subrange(a, b));
    }
    let u = s.push(c);
    lemma_skip_push(c, s, 0);
    assert(u[s.len() as int] == c);
    lemma_drop_push(c, s, s.len() as int);
    if a < b {
        assert(u.subrange(a, b) =~= s.subrange(a, b));
    }
}

proof fn lemma_skip_bounds(s: Seq<char>, i: int)
    requires
        0 <= i <= s.len(),
    ensures
        i <= skip_white_from(s, i) <= s.len(),
    decreases s.len() - i,
{
    if i < s.len() && is_white_space(s[i]) {
        lemma_skip_bounds(s, i + 1);
    }
}

proof fn lemma_drop_bounds(s: Seq<char>, j: int)
    requires
        0 <= j <= s.len(),
    ensures
        0 <= drop_white_before(s, j) <= j,
    decreases j,
{
    if j > 0 && is_white_space(s[j - 1]) {
        lemma_drop_bounds(s, j - 1);
    }
}

fn white_space(c: char) -> (r: bool)
    ensures
        r == is_white_space(c),
{
    let n = c as u32;
    (0x9 <= n && n <= 0xD) || n == 0x20 || n == 0x85 || n == 0xA0 || n == 0x1680
        || (0x2000 <= n && n <= 0x200A) || n == 0x2028 || n == 0x2029 || n == 0x202F
        || n == 0x205F || n == 0x3000
}

fn first_kept(cs: &Vec<char>) -> (a: usize)
    ensures
        a == skip_white_from(cs@, 0),
        a <= cs@.len(),
{
    let mut a: usize = 0;
    loop
        invariant
            a <= cs@.len(),
            skip_white_from(cs@, 0) == skip_white_from(cs@, a as int),
        decreases cs@.len() - a,
    {
        if a == cs.len() || !white_space(cs[a]) {
            return a;
        }
        a = a + 1;
    }
}

fn kept_end(cs: &Vec<char>) -> (b: usize)
    ensures
        b == drop_white_before(cs@, cs@.len() as int),
        b <= cs@.len(),
{
    let mut b: usize = cs.len();
    loop
        invariant
            b <= cs@.len(),
            drop_white_before(cs@, cs@.len() as int) == drop_white_before(cs@, b as int),
        decreases b,
    {
        if b == 0 || !white_space(cs[b - 1]) {
            return b;
        }
        b = b - 1;
    }
}

/// Removes leading and trailing white space, as `str::trim` does.
pub fn trim(s: &str) -> (r: String)
    ensures
        r@ == trimmed(s@),
{
    let cs = chars_of(s);
    let a = first_kept(&cs);
    let b = kept_end(&cs);
    if a < b {
        string_of(&cs, a, b)
    } else {
        String::new()
    }
}

/// A string of the characters `cs[a..b]`.
pub fn string_of(cs: &Vec<char>, a: usize, b: usize) -> (r: String)
    requires
        a <= b <= cs@.len(),
    ensures
        r@ == cs@.subrange(a as int, b as int),
{
    let mut out = String::new();
    let mut i: usize = a;
    while i < b
        invariant
            a <= i <= b <= cs@.len(),
            out@ == cs@.subrange(a as int, i as int),
        decreases b - i,
    {
        push_char(&mut out, cs[i]);
        i = i + 1;
        assert(out@ =~= cs@.subrange(a as int, i as int));
    }
    out
}

/// `s` ends with `suffix`.
pub open spec fn ends_with(s: Seq<char>, suffix: Seq<char>) -> bool {
    suffix.len() <= s.len() && s.subrange(s.len() - suffix.len(), s.len() as int) == suffix
}

/// `s` with every trailing copy of a non-empty `suffix` removed, as
/// `str::trim_end_matches` removes them.
pub open spec fn strip_suffixes(s: Seq<char>, suffix: Seq<char>) -> Seq<char>
    decreases s.len(),
{
    if suffix.len() > 0 && ends_with(s, suffix) {
        strip_suffixes(s.subrange(0, s.len() - suffix.len()), suffix)
    } else {
        s
    }
}

/// What `{:?}` writes for a string: its text in double quotes, with the
/// characters that need it escaped.
pub uninterp spec fn spec_debug_str(s: Seq<char>) -> Seq<char>;

/// Formats a string with `{:?}` (`str`'s `Debug`). The escaped text is
/// named, not restated.
#[verifier::external_body]
pub(crate) fn debug_str(s: &str) -> (r: String)
    ensures
        r@ == spec_debug_str(s@),
{
    format!("{:?}", s)
}

/// Calls `String::push`, which appends one character.
#[verifier::external_body]
pub(crate) fn push_char(s: &mut String, c: char)
    ensures
        final(s)@ == old(s)@.push(c),
{
    s.push(c);
}

/// Tests whether `s` holds exactly the characters of `lit`.
pub fn is_text(s: &String, lit: &str) -> (r: bool)
    ensures
        r == (s@ == lit@),
{
    let t = String::from_str(lit);
    s.eq(&t)
}

/// A new string holding the characters of `lit`.
pub fn owned(lit: &str) -> (r: String)
    ensures
        r@ == lit@,
{
    String::from_str(lit)
}

/// `needle` occurs in `hay` starting at position `i`.
pub open spec fn occurs_at(hay: Seq<char>, needle: Seq<char>, i: int) -> bool {
    0 <= i && i + needle.len() <= hay.len() && hay.subrange(i, i + needle.len()) == needle
}

/// `needle` occurs somewhere in `hay` (what `str::contains` answers).
pub open spec fn seq_contains(hay: Seq<char>, needle: Seq<char>) -> bool {
    exists|i: int| occurs_at(hay, needle, i)
}

/// Copies the characters of a string into a vector.
pub fn chars_of(s: &str) -> (r: Vec<char>)
    ensures
        r@ == s@,
{
    let mut r: Vec<char> = Vec::new();
    let n = s.unicode_len();
    let mut i: usize = 0;
    while i < n
        invariant
            n == s@.len(),
            i <= n,
            r@ == s@.subrange(0, i as int),
        decreases n - i,
    {
        let c = s.get_char(i);
        r.push(c);
        i = i + 1;
        assert(r@ =~= s@.subrange(0, i as int));
    }
    assert(r@ =~= s@);
    r
}

pub(crate) fn matches_at(hay: &Vec<char>, needle: &Vec<char>, i: usize) -> (r: bool)
    requires
        i + needle@.len() <= hay@.len(),
    ensures
        r == occurs_at(hay@, needle@, i as int),
{
    let hl = hay.len();
    let mut j: usize = 0;
    while j < needle.len()
        invariant
            hl == hay@.len(),
            i + needle@.len() <= hay@.len(),
            j <= needle@.len(),
            forall|k: int| 0 <= k < j ==> hay@[i + k] == needle@[k],
        decreases needle@.len() - j,
    {
        if hay[i + j] != needle[j] {
            assert(hay@.subrange(i as int, i + needle@.len())[j as int] != needle@[j as int]);
            return false;
        }
        j = j + 1;
    }
    assert(hay@.subrange(i as int, i + needle@.len()) =~= needle@);
    true
}

/// Substring search on characters: does `needle` occur in `hay`?
pub fn contains(hay: &str, needle: &str) -> (r: bool)
    ensures
        r == seq_contains(hay@, needle@),
{
    let h = chars_of(hay);
    let nd = chars_of(needle);
    if nd.len() > h.len() {
        return false;
    }
    let last = h.len() - nd.len();
    let mut i: usize = 0;
    loop
        invariant
            h@ == hay@,
            nd@ == needle@,
            last == h@.len() - nd@.len(),
            i <= last,
            forall|k: int| 0 <= k < i ==> !occurs_at(hay@, needle@, k),
        decreases last - i,
    {
        if matches_at(&h, &nd, i) {
            return true;
        }
        if i == last {
            assert forall|k: int| occurs_at(hay@, needle@, k) implies false by {
                assert(k <= last);
            }
            return false;
        }
        i = i + 1;
    }
}

/// The first pattern, from index `i` on, that occurs in `hay`.
pub open spec fn first_match_from(hay: Seq<char>, pats: Seq<Seq<char>>, i: int) -> Option<int>
    decreases pats.len() - i,
{
    if i < 0 || i >= pats.len() {
        None
    } else if seq_contains(hay, pats[i]) {
        Some(i)
    } else {
        first_match_from(hay, pats, i + 1)
    }
}

/// What the search from index `i` finds: the least index `j >= i` whose
/// pattern occurs in `hay`, or nothing when none from `i` on does.
pub proof fn lemma_first_match_from(hay: Seq<char>, pats: Seq<Seq<char>>, i: int)
    requires
        0 <= i <= pats.len(),
    ensures
        match first_match_from(hay, pats, i) {
            Some(j) => {
                &&& i <= j < pats.len()
                &&& seq_contains(hay, pats[j])
                &&& forall|m: int| i <= m < j ==> !seq_contains(hay, #[trigger] pats[m])
            },
            None => forall|m: int| i <= m < pats.len() ==> !seq_contains(hay, #[trigger] pats[m]),
        },
    decreases pats.len() - i,
{
    if i < pats.len() && !seq_contains(hay, pats[i]) {
        lemma_first_match_from(hay, pats, i + 1);
    }
}

/// The index of the first pattern that occurs in `hay`, if any does.
pub open spec fn first_match(hay: Seq<char>, pats: Seq<Seq<char>>) -> Option<int> {
    first_match_from(hay, pats, 0)
}

/// The characters of each pattern.
pub open spec fn pattern_views(pats: Seq<&str>) -> Seq<Seq<char>> {
    pats.map_values(|p: &str| p@)
}

/// Finds the first of `pats` that occurs in `hay`.
pub fn find_first(hay: &str, pats: &Vec<&str>) -> (r: Option<usize>)
    ensures
        match r {
            Some(i) => i < pats@.len() && first_match(hay@, pattern_views(pats@)) == Some(i as int),
            None => first_match(hay@, pattern_views(pats@)) is None,
        },
{
    let ghost pv = pattern_views(pats@);
    let mut i: usize = 0;
    while i < pats.len()
        invariant
            i <= pats@.len(),
            pv == pattern_views(pats@),
            first_match(hay@, pv) == first_match_from(hay@, pv, i as int),
        decreases pats@.len() - i,
    {
        if contains(hay, pats[i]) {
            return Some(i);
        }
        i = i + 1;
    }
    None
}

/// The decimal digits of `n`, most significant first, without leading zeros.
pub open spec fn decimal(n: nat) -> Seq<char>
    decreases n,
{
    if n < 10 {
        seq![digit_char(n)]
    } else {
        decimal(n / 10).push(digit_char(n % 10))
    }
}

pub open spec fn digit_char(d: nat) -> char {
    if d == 0 { '0' } else if d == 1 { '1' } else if d == 2 { '2' } else if d == 3 { '3' }
    else if d == 4 { '4' } else if d == 5 { '5' } else if d == 6 { '6' } else if d == 7 { '7' }
    else if d == 8 { '8' } else { '9' }
}

fn digit(d: u32) -> (c: char)
    requires
        d < 10,
    ensures
        c == digit_char(d as nat),
{
    if d == 0 { '0' } else if d == 1 { '1' } else if d == 2 { '2' } else if d == 3 { '3' }
    else if d == 4 { '4' } else if d == 5 { '5' } else if d == 6 { '6' } else if d == 7 { '7' }
    else if d == 8 { '8' } else { '9' }
}

/// Appends the decimal form of `n` to `out`, as `{}` formats a `u32`.
pub fn push_decimal(out: &mut String, n: u32)
    ensures
        final(out)@ == old(out)@ + decimal(n as nat),
    decreases n,
{
    if n < 10 {
        push_char(out, digit(n));
        assert(old(out)@.push(digit_char(n as nat)) =~= old(out)@ + decimal(n as nat));
    } else {
        push_decimal(out, n / 10);
        push_char(out, digit(n % 10));
        assert(final(out)@ =~= old(out)@ + decimal(n as nat));
    }
}

} // verus!
