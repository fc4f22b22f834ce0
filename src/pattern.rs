//! Search patterns over the payload of an address text.

use vstd::prelude::*;

verus! {

/// Result of `str::to_lowercase` on a character sequence.
pub uninterp spec fn lower_of(s: Seq<char>) -> Seq<char>;

pub open spec fn is_ascii_char(c: char) -> bool {
    (c as u32) < 128
}

pub open spec fn is_ascii_text(s: Seq<char>) -> bool {
    forall|i: int| 0 <= i < s.len() ==> is_ascii_char(#[trigger] s[i])
}

/// ASCII lowercase of one character: `A`..`Z` become `a`..`z`, all else stays.
pub open spec fn ascii_lower(c: char) -> char {
    if 'A' <= c && c <= 'Z' {
        ((c as u8) + 32u8) as char
    } else {
        c
    }
}

pub open spec fn ascii_lowered(s: Seq<char>) -> Seq<char> {
    s.map_values(|c: char| ascii_lower(c))
}

/// Relies on `str::to_lowercase`: the result depends on the characters
/// alone, and on ASCII text it lowers `A`..`Z` one character at a time.
#[verifier::external_body]
fn to_lower(s: &str) -> (r: String)
    ensures
        r@ == lower_of(s@),
        is_ascii_text(s@) ==> r@ == ascii_lowered(s@),
{
    s.to_lowercase()
}

/// The characters of `s`, one per element.
pub fn chars_of(s: &str) -> (r: Vec<char>)
    ensures
        r@ == s@,
{
    let mut out: Vec<char> = Vec::new();
    proof {
        broadcast use vstd::string::axiom_spec_iter;
    }
    for c in it: s.chars()
        invariant
            out@ == it.seq().take(it.index() as int),
    {
        out.push(c);
    }
    assert(out@ =~= s@);
    out
}

/// Whether `t` begins with `p`.
pub open spec fn starts_with(t: Seq<char>, p: Seq<char>) -> bool {
    p.len() <= t.len() && t.subrange(0, p.len() as int) == p
}

/// Whether `t` ends with `p`.
pub open spec fn ends_with(t: Seq<char>, p: Seq<char>) -> bool {
    p.len() <= t.len() && t.subrange(t.len() - p.len(), t.len() as int) == p
}

fn vec_starts_with(t: &Vec<char>, p: &Vec<char>) -> (r: bool)
    ensures
        r == starts_with(t@, p@),
{
    if p.len() > t.len() {
        return false;
    }
    let mut i: usize = 0;
    while i < p.len()
        invariant
            p.len() <= t.len(),
            i <= p.len(),
            forall|j: int| 0 <= j < i ==> t@[j] == p@[j],
        decreases p.len() - i,
    {
        if t[i] != p[i] {
            assert(t@.subrange(0, p.len() as int)[i as int] != p@[i as int]);
            return false;
        }
        i = i + 1;
    }
    assert(t@.subrange(0, p.len() as int) =~= p@);
    true
}

fn vec_ends_with(t: &Vec<char>, p: &Vec<char>) -> (r: bool)
    ensures
        r == ends_with(t@, p@),
{
    if p.len() > t.len() {
        return false;
    }
    let off = t.len() - p.len();
    let mut i: usize = 0;
    while i < p.len()
        invariant
            p.len() <= t.len(),
            off == t.len() - p.len(),
            i <= p.len(),
            forall|j: int| 0 <= j < i ==> t@[off + j] == p@[j],
        decreases p.len() - i,
    {
        if t[off + i] != p[i] {
            assert(t@.subrange(off as int, t.len() as int)[i as int] != p@[i as int]);
            return false;
        }
        i = i + 1;
    }
    assert(t@.subrange(off as int, t.len() as int) =~= p@);
    true
}

/// Index of the first `':'` in `s` at or after `i`, or `s.len()` if none.
pub open spec fn next_colon(s: Seq<char>, i: int) -> int
    decreases s.len() - i,
{
    if i < 0 || i >= s.len() {
        s.len() as int
    } else if s[i] == ':' {
        i
    } else {
        next_colon(s, i + 1)
    }
}

/// The payload of an address text: what stands between its first `':'` and
/// the next one (or the end). Empty when the text holds no `':'`.
pub open spec fn payload_of(addr: Seq<char>) -> Seq<char> {
    let c = next_colon(addr, 0);
    if c >= addr.len() {
        Seq::empty()
    } else {
        addr.subrange(c + 1, next_colon(addr, c + 1))
    }
}

/// The searchable tail: the payload without its two structural characters.
pub open spec fn tail_of(addr: Seq<char>) -> Seq<char> {
    let p = payload_of(addr);
    if p.len() > 2 {
        p.subrange(2, p.len() as int)
    } else {
        Seq::empty()
    }
}

proof fn lemma_next_colon_bounds(s: Seq<char>, i: int)
    requires
        0 <= i,
    ensures
        i <= next_colon(s, i) <= s.len() || (i > s.len() && next_colon(s, i) == s.len()),
        next_colon(s, i) < s.len() ==> s[next_colon(s, i)] == ':',
        forall|j: int| i <= j < next_colon(s, i) ==> s[j] != ':',
    decreases s.len() - i,
{
    if i < s.len() && s[i] != ':' {
        lemma_next_colon_bounds(s, i + 1);
    }
}

/// First position at or after `from` that holds a `':'`, or `s.len()`.
fn find_colon(s: &Vec<char>, from: usize) -> (r: usize)
    requires
        from <= s.len(),
    ensures
        r == next_colon(s@, from as int),
{
    let mut i = from;
    while i < s.len() && s[i] != ':'
        invariant
            from <= i <= s.len(),
            next_colon(s@, from as int) == next_colon(s@, i as int),
        decreases s.len() - i,
    {
        i = i + 1;
    }
    i
}

/// The searchable tail of an address text.
pub fn searchable_tail(address: &str) -> (r: &str)
    ensures
        r@ == tail_of(address@),
{
    let chars = chars_of(address);
    let n = chars.len();
    let c = find_colon(&chars, 0);
    proof {
        lemma_next_colon_bounds(address@, 0);
    }
    if c >= n {
        return address.substring_char(0, 0);
    }
    let e = find_colon(&chars, c + 1);
    proof {
        lemma_next_colon_bounds(address@, c + 1);
    }
    if e - (c + 1) > 2 {
        let t = address.substring_char(c + 3, e);
        assert(t@ =~= tail_of(address@));
        t
    } else {
        address.substring_char(0, 0)
    }
}

/// Case-insensitive matching on ASCII text: the tail lowered letter by
/// letter must start with the prefix and end with the suffix.
pub open spec fn ascii_matches(
    addr: Seq<char>,
    prefix: Option<Seq<char>>,
    suffix: Option<Seq<char>>,
) -> bool {
    let t = ascii_lowered(tail_of(addr));
    &&& (prefix matches Some(p) ==> starts_with(t, p))
    &&& (suffix matches Some(q) ==> ends_with(t, q))
}

proof fn lemma_ascii_lower_char(c: char)
    ensures
        (ascii_lower(c) == ':') == (c == ':'),
        is_ascii_char(c) ==> is_ascii_char(ascii_lower(c)),
        ascii_lower(ascii_lower(c)) == ascii_lower(c),
        'A' <= c && c <= 'Z' ==> ascii_lower(c) != c,
        !('A' <= ascii_lower(c) && ascii_lower(c) <= 'Z'),
{
}

proof fn lemma_next_colon_lowered(s: Seq<char>, i: int)
    requires
        0 <= i,
    ensures
        next_colon(ascii_lowered(s), i) == next_colon(s, i),
    decreases s.len() - i,
{
    if i < s.len() {
        lemma_ascii_lower_char(s[i]);
        lemma_next_colon_lowered(s, i + 1);
    }
}

/// Lowering ASCII letters commutes with taking the searchable tail.
pub proof fn lemma_tail_of_lowered(addr: Seq<char>)
    ensures
        tail_of(ascii_lowered(addr)) == ascii_lowered(tail_of(addr)),
{
    let l = ascii_lowered(addr);
    lemma_next_colon_lowered(addr, 0);
    lemma_next_colon_bounds(addr, 0);
    let c = next_colon(addr, 0);
    if c < addr.len() {
        lemma_next_colon_lowered(addr, c + 1);
        lemma_next_colon_bounds(addr, c + 1);
        assert(payload_of(l) =~= ascii_lowered(payload_of(addr)));
    }
    assert(tail_of(l) =~= ascii_lowered(tail_of(addr)));
}

/// Lowering twice is lowering once: a pattern written `AB` and one written
/// `ab` are held alike once lowered.
pub proof fn lemma_lowered_twice(s: Seq<char>)
    ensures
        ascii_lowered(ascii_lowered(s)) == ascii_lowered(s),
{
    assert forall|i: int| 0 <= i < s.len() implies #[trigger] ascii_lowered(ascii_lowered(s))[i]
        == ascii_lowered(s)[i] by {
        lemma_ascii_lower_char(s[i]);
    }
    assert(ascii_lowered(ascii_lowered(s)) =~= ascii_lowered(s));
}

/// Case-insensitive matching of an ASCII address gives the same answer on
/// the address as on its lowercase form.
pub proof fn lemma_case_insensitive_equivalence(
    addr: Seq<char>,
    prefix: Option<Seq<char>>,
    suffix: Option<Seq<char>>,
)
    requires
        is_ascii_text(addr),
    ensures
        is_ascii_text(ascii_lowered(addr)),
        ascii_matches(addr, prefix, suffix) == ascii_matches(ascii_lowered(addr), prefix, suffix),
{
    assert forall|i: int| 0 <= i < addr.len() implies is_ascii_char(
        #[trigger] ascii_lowered(addr)[i],
    ) by {
        lemma_ascii_lower_char(addr[i]);
    }
    lemma_tail_of_lowered(addr);
    lemma_lowered_twice(tail_of(addr));
}

/// The tail of ASCII text is ASCII.
proof fn lemma_tail_ascii(addr: Seq<char>)
    requires
        is_ascii_text(addr),
    ensures
        is_ascii_text(tail_of(addr)),
{
    lemma_next_colon_bounds(addr, 0);
    let c = next_colon(addr, 0);
    if c < addr.len() {
        lemma_next_colon_bounds(addr, c + 1);
    }
    let t = tail_of(addr);
    if t.len() > 0 {
        assert forall|i: int| 0 <= i < t.len() implies is_ascii_char(#[trigger] t[i]) by {
            assert(t[i] == addr[c + 3 + i]);
        }
    }
}

pub open spec fn has_uppercase(s: Seq<char>) -> bool {
    exists|i: int| 0 <= i < s.len() && 'A' <= #[trigger] s[i] && s[i] <= 'Z'
}

/// On an address text without uppercase letters, a case-sensitive pattern
/// whose prefix or suffix holds an uppercase letter never matches.
pub proof fn lemma_uppercase_never_matches(
    addr: Seq<char>,
    prefix: Option<Seq<char>>,
    suffix: Option<Seq<char>>,
)
    requires
        ascii_lowered(addr) == addr,
        (prefix matches Some(p) && has_uppercase(p)) || (suffix matches Some(q) && has_uppercase(q)),
    ensures
        !spec_matches(addr, prefix, suffix, true),
{
    lemma_tail_of_lowered(addr);
    let t = tail_of(addr);
    assert(ascii_lowered(t) == t);
    if spec_matches(addr, prefix, suffix, true) {
        if prefix is Some && has_uppercase(prefix->0) {
            let p = prefix->0;
            let i = choose|i: int| 0 <= i < p.len() && 'A' <= #[trigger] p[i] && p[i] <= 'Z';
            assert(t.subrange(0, p.len() as int)[i] == p[i]);
            lemma_ascii_lower_char(t[i]);
            assert(ascii_lowered(t)[i] == ascii_lower(t[i]));
        } else {
            let q = suffix->0;
            let i = choose|i: int| 0 <= i < q.len() && 'A' <= #[trigger] q[i] && q[i] <= 'Z';
            let k = t.len() - q.len() + i;
            assert(t.subrange(t.len() - q.len(), t.len() as int)[i] == q[i]);
            lemma_ascii_lower_char(t[k]);
            assert(ascii_lowered(t)[k] == ascii_lower(t[k]));
        }
    }
}

/// The characters that the address alphabet leaves out: `1` (the
/// separator), and `b`, `i`, `o` (easily confused with other symbols).
pub open spec fn is_excluded_char(c: char) -> bool {
    c == '1' || c == 'b' || c == 'i' || c == 'o'
}

pub open spec fn has_excluded_char(s: Seq<char>) -> bool {
    exists|i: int| 0 <= i < s.len() && is_excluded_char(#[trigger] s[i])
}

/// The first excluded character of `s`, if any.
pub open spec fn first_excluded(s: Seq<char>) -> Option<char>
    decreases s.len(),
{
    if s.len() == 0 {
        None
    } else if is_excluded_char(s[0]) {
        Some(s[0])
    } else {
        first_excluded(s.drop_first())
    }
}

/// A text has a first excluded character exactly when it holds one, and
/// that character is excluded.
pub proof fn lemma_first_excluded(s: Seq<char>)
    ensures
        first_excluded(s) is Some <==> has_excluded_char(s),
        first_excluded(s) matches Some(c) ==> is_excluded_char(c),
    decreases s.len(),
{
    if s.len() > 0 && !is_excluded_char(s[0]) {
        lemma_first_excluded(s.drop_first());
        if has_excluded_char(s) {
            let i = choose|i: int| 0 <= i < s.len() && is_excluded_char(#[trigger] s[i]);
            assert(s.drop_first()[i - 1] == s[i]);
        }
        if has_excluded_char(s.drop_first()) {
            let i = choose|i: int| 0 <= i < s.len() - 1 && is_excluded_char(#[trigger] s.drop_first()[i]);
            assert(s[i + 1] == s.drop_first()[i]);
        }
    }
}

/// Checks a pattern text against the address alphabet: `Err(c)` names the
/// first excluded character.
pub fn validate_pattern(pattern: &str) -> (r: Result<(), char>)
    ensures
        r == (match first_excluded(pattern@) {
            None => Ok(()),
            Some(c) => Err(c),
        }),
        r is Ok <==> !has_excluded_char(pattern@),
{
    let chars = chars_of(pattern);
    let mut i: usize = 0;
    proof {
        lemma_first_excluded(pattern@);
        assert(pattern@.subrange(0, pattern@.len() as int) =~= pattern@);
    }
    while i < chars.len()
        invariant
            chars@ == pattern@,
            i <= chars.len(),
            first_excluded(pattern@) == first_excluded(pattern@.subrange(i as int, chars.len() as int)),
        decreases chars.len() - i,
    {
        let c = chars[i];
        if c == '1' || c == 'b' || c == 'i' || c == 'o' {
            return Err(c);
        }
        assert(pattern@.subrange(i as int, chars.len() as int).drop_first() =~= pattern@.subrange(
            i + 1,
            chars.len() as int,
        ));
        i = i + 1;
    }
    Ok(())
}

/// A pattern text as it is compared: lowered unless the case matters.
pub open spec fn normalized(s: Seq<char>, case_sensitive: bool) -> Seq<char> {
    if case_sensitive {
        s
    } else {
        lower_of(s)
    }
}

pub open spec fn opt_view(s: Option<String>) -> Option<Seq<char>> {
    match s {
        Some(t) => Some(t@),
        None => None,
    }
}

pub open spec fn opt_normalized(s: Option<String>, case_sensitive: bool) -> Option<Seq<char>> {
    match s {
        Some(t) => Some(normalized(t@, case_sensitive)),
        None => None,
    }
}

/// Whether an address text matches a prefix and a suffix under a case
/// policy; an absent part matches anything.
pub open spec fn spec_matches(
    addr: Seq<char>,
    prefix: Option<Seq<char>>,
    suffix: Option<Seq<char>>,
    case_sensitive: bool,
) -> bool {
    let t = normalized(tail_of(addr), case_sensitive);
    &&& (prefix matches Some(p) ==> starts_with(t, p))
    &&& (suffix matches Some(q) ==> ends_with(t, q))
}

/// Why a pattern was refused.
#[derive(Debug, Clone, Copy, PartialEq, Eq, Structural)]
pub enum PatternError {
    /// Neither a prefix nor a suffix was given.
    Missing,
    /// The prefix holds a character that no address can hold.
    InvalidPrefixChar(char),
    /// The suffix holds a character that no address can hold.
    InvalidSuffixChar(char),
}

/// The character that a refused prefix is refused for, if it is.
pub open spec fn prefix_rejection(r: Result<SearchPattern, PatternError>) -> Option<char> {
    match r {
        Err(PatternError::InvalidPrefixChar(c)) => Some(c),
        _ => None,
    }
}

/// The character that a refused suffix is refused for, if it is.
pub open spec fn suffix_rejection(r: Result<SearchPattern, PatternError>) -> Option<char> {
    match r {
        Err(PatternError::InvalidSuffixChar(c)) => Some(c),
        _ => None,
    }
}

/// What to look for in an address: its tail must start with `prefix` and end
/// with `suffix`. Without `case_sensitive` both parts are held lowered.
pub struct SearchPattern {
    pub prefix: Option<String>,
    pub suffix: Option<String>,
    pub case_sensitive: bool,
}

impl SearchPattern {
    pub open spec fn prefix_view(&self) -> Option<Seq<char>> {
        opt_view(self.prefix)
    }

    pub open spec fn suffix_view(&self) -> Option<Seq<char>> {
        opt_view(self.suffix)
    }

    /// The outcome of building a pattern from these parts.
    pub open spec fn spec_new(
        prefix: Option<String>,
        suffix: Option<String>,
        case_sensitive: bool,
    ) -> Result<(Option<Seq<char>>, Option<Seq<char>>), PatternError> {
        let p = opt_normalized(prefix, case_sensitive);
        let q = opt_normalized(suffix, case_sensitive);
        if prefix is None && suffix is None {
            Err(PatternError::Missing)
        } else if p is Some && first_excluded(p->0) is Some {
            Err(PatternError::InvalidPrefixChar(first_excluded(p->0)->0))
        } else if q is Some && first_excluded(q->0) is Some {
            Err(PatternError::InvalidSuffixChar(first_excluded(q->0)->0))
        } else {
            Ok((p, q))
        }
    }

    /// Builds a pattern: at least one part must be given, each part is
    /// lowered unless `case_sensitive`, and then checked against the address
    /// alphabet, the prefix first.
    pub fn new(prefix: Option<String>, suffix: Option<String>, case_sensitive: bool) -> (r: Result<
        SearchPattern,
        PatternError,
    >)
        ensures
            match (r, Self::spec_new(prefix, suffix, case_sensitive)) {
                (Ok(pat), Ok((p, q))) => pat.prefix_view() == p && pat.suffix_view() == q
                    && pat.case_sensitive == case_sensitive,
                (Err(e), Err(f)) => e == f,
                _ => false,
            },
            !case_sensitive ==> (prefix matches Some(p) ==> (is_ascii_text(p@) ==> prefix_rejection(r)
                == first_excluded(ascii_lowered(p@)))),
            !case_sensitive ==> (suffix matches Some(q) ==> (is_ascii_text(q@) && prefix_rejection(r)
                is None ==> suffix_rejection(r) == first_excluded(ascii_lowered(q@)))),
            r matches Ok(pat) ==> (prefix matches Some(p) ==> (!case_sensitive && is_ascii_text(p@)
                ==> pat.prefix_view() == Some(ascii_lowered(p@)))),
            r matches Ok(pat) ==> (suffix matches Some(q) ==> (!case_sensitive && is_ascii_text(q@)
                ==> pat.suffix_view() == Some(ascii_lowered(q@)))),
    {
        if prefix.is_none() && suffix.is_none() {
            return Err(PatternError::Missing);
        }
        let prefix = match prefix {
            Some(p) => {
                let n = if case_sensitive {
                    p
                } else {
                    to_lower(p.as_str())
                };
                if let Err(c) = validate_pattern(n.as_str()) {
                    return Err(PatternError::InvalidPrefixChar(c));
                }
                Some(n)
            },
            None => None,
        };
        let suffix = match suffix {
            Some(q) => {
                let n = if case_sensitive {
                    q
                } else {
                    to_lower(q.as_str())
                };
                if let Err(c) = validate_pattern(n.as_str()) {
                    return Err(PatternError::InvalidSuffixChar(c));
                }
                Some(n)
            },
            None => None,
        };
        Ok(SearchPattern { prefix, suffix, case_sensitive })
    }

    /// Number of characters that the pattern fixes, prefix and suffix
    /// together (saturating at `usize::MAX`).
    pub fn fixed_len(&self) -> (r: usize)
        ensures
            r == vstd::math::min(usize::MAX as int, (match self.prefix_view() {
                Some(p) => p.len() as int,
                None => 0int,
            }) + (match self.suffix_view() {
                Some(q) => q.len() as int,
                None => 0int,
            })),
    {
        let a = match &self.prefix {
            Some(p) => p.as_str().unicode_len(),
            None => 0,
        };
        let b = match &self.suffix {
            Some(q) => q.as_str().unicode_len(),
            None => 0,
        };
        if a <= usize::MAX - b {
            a + b
        } else {
            usize::MAX
        }
    }

    /// Whether `address` matches this pattern: its searchable tail, lowered
    /// unless the case matters, starts with the prefix and ends with the suffix.
    pub fn matches(&self, address: &str) -> (r: bool)
        ensures
            r == spec_matches(address@, self.prefix_view(), self.suffix_view(), self.case_sensitive),
            !self.case_sensitive && is_ascii_text(address@) ==> r == ascii_matches(
                address@,
                self.prefix_view(),
                self.suffix_view(),
            ),
    {
        let tail = searchable_tail(address);
        proof {
            if is_ascii_text(address@) {
                lemma_tail_ascii(address@);
            }
        }
        let t = if self.case_sensitive {
            chars_of(tail)
        } else {
            let lowered = to_lower(tail);
            chars_of(lowered.as_str())
        };
        let pre_ok = match &self.prefix {
            Some(p) => vec_starts_with(&t, &chars_of(p.as_str())),
            None => true,
        };
        let suf_ok = match &self.suffix {
            Some(q) => vec_ends_with(&t, &chars_of(q.as_str())),
            None => true,
        };
        pre_ok && suf_ok
    }
}

/// A pattern whose prefix or suffix, as it will be compared, holds an
/// excluded character is refused, whichever of the two holds it; a pattern
/// that is accepted holds none.
pub proof fn lemma_excluded_chars_rejected(
    prefix: Option<String>,
    suffix: Option<String>,
    case_sensitive: bool,
)
    ensures
        (opt_normalized(prefix, case_sensitive) matches Some(t) && has_excluded_char(t)) ==> (
        SearchPattern::spec_new(prefix, suffix, case_sensitive) matches Err(
            PatternError::InvalidPrefixChar(c),
        ) && is_excluded_char(c)),
        (opt_normalized(suffix, case_sensitive) matches Some(t) && has_excluded_char(t)) ==> (
        SearchPattern::spec_new(prefix, suffix, case_sensitive) matches Err(e) && (match e {
            PatternError::InvalidPrefixChar(c) => is_excluded_char(c),
            PatternError::InvalidSuffixChar(c) => is_excluded_char(c),
            PatternError::Missing => false,
        })),
        SearchPattern::spec_new(prefix, suffix, case_sensitive) matches Ok((p, q)) ==> (!(p matches Some(
            t,
        ) && has_excluded_char(t)) && !(q matches Some(t) && has_excluded_char(t))),
{
    if let Some(t) = opt_normalized(prefix, case_sensitive) {
        lemma_first_excluded(t);
    }
    if let Some(t) = opt_normalized(suffix, case_sensitive) {
        lemma_first_excluded(t);
    }
}

/// Matching depends on the address text and on what the pattern holds,
/// nothing else: equal inputs give equal answers.
pub proof fn lemma_matches_deterministic(
    addr1: Seq<char>,
    addr2: Seq<char>,
    p1: SearchPattern,
    p2: SearchPattern,
)
    requires
        addr1 == addr2,
        p1.prefix_view() == p2.prefix_view(),
        p1.suffix_view() == p2.suffix_view(),
        p1.case_sensitive == p2.case_sensitive,
    ensures
        spec_matches(addr1, p1.prefix_view(), p1.suffix_view(), p1.case_sensitive) == spec_matches(
            addr2,
            p2.prefix_view(),
            p2.suffix_view(),
            p2.case_sensitive,
        ),
{
}

} // verus!
