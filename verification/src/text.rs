//! Text handling for extracted element content: whitespace trimming,
//! first-word extraction, and the currency-marker test.
use vstd::prelude::*;

verus! {

/// The currency marker that identifies a real price token.
pub open spec fn euro() -> char {
    '\u{20ac}'
}

/// The whitespace characters that trimming and word splitting recognise.
pub open spec fn is_space(c: char) -> bool {
    c == ' ' || c == '\t' || c == '\n' || c == '\r'
}

/// `s` without its leading whitespace.
pub open spec fn trim_start(s: Seq<char>) -> Seq<char>
    decreases s.len(),
{
    if s.len() > 0 && is_space(s[0]) {
        trim_start(s.drop_first())
    } else {
        s
    }
}

/// `s` without its trailing whitespace.
pub open spec fn trim_end(s: Seq<char>) -> Seq<char>
    decreases s.len(),
{
    if s.len() > 0 && is_space(s.last()) {
        trim_end(s.drop_last())
    } else {
        s
    }
}

/// `s` without its leading and trailing whitespace.
pub open spec fn trimmed(s: Seq<char>) -> Seq<char> {
    trim_end(trim_start(s))
}

/// The longest whitespace-free prefix of `s`.
pub open spec fn first_word(s: Seq<char>) -> Seq<char>
    decreases s.len(),
{
    if s.len() == 0 || is_space(s[0]) {
        Seq::<char>::empty()
    } else {
        seq![s[0]] + first_word(s.drop_first())
    }
}

/// Whether `s` holds the character `c` anywhere.
pub open spec fn contains_char(s: Seq<char>, c: char) -> bool {
    exists|i: int| 0 <= i < s.len() && s[i] == c
}

/// The price token a price element's text yields: the first word of the
/// trimmed text when it carries the currency marker, nothing otherwise.
pub open spec fn price_token(raw: Seq<char>) -> Option<Seq<char>> {
    let t = trimmed(raw);
    if contains_char(t, euro()) {
        Some(first_word(t))
    } else {
        None
    }
}

/// Dropping whitespace from the front, one character at a time, reaches
/// the subrange that starts at the first non-space position.
proof fn lemma_trim_start_subrange(s: Seq<char>, lo: int)
    requires
        0 <= lo <= s.len(),
        forall|j: int| 0 <= j < lo ==> is_space(s[j]),
        lo == s.len() || !is_space(s[lo]),
    ensures
        trim_start(s) == s.subrange(lo, s.len() as int),
    decreases lo,
{
    if lo == 0 {
        assert(trim_start(s) =~= s.subrange(0, s.len() as int));
    } else {
        assert(is_space(s[0]));
        let d = s.drop_first();
        assert(d =~= s.subrange(1, s.len() as int));
        lemma_trim_start_subrange(d, lo - 1);
        assert(d.subrange(lo - 1, d.len() as int) =~= s.subrange(lo, s.len() as int));
    }
}

/// Dropping whitespace from the back, one character at a time, reaches
/// the subrange that ends after the last non-space position.
proof fn lemma_trim_end_subrange(s: Seq<char>, hi: int)
    requires
        0 <= hi <= s.len(),
        forall|j: int| hi <= j < s.len() ==> is_space(s[j]),
        hi == 0 || !is_space(s[hi - 1]),
    ensures
        trim_end(s) == s.subrange(0, hi),
    decreases s.len() - hi,
{
    if hi == s.len() {
        assert(trim_end(s) =~= s.subrange(0, hi));
    } else {
        assert(is_space(s.last()));
        let d = s.drop_last();
        assert(d =~= s.subrange(0, s.len() - 1));
        lemma_trim_end_subrange(d, hi);
        assert(d.subrange(0, hi) =~= s.subrange(0, hi));
    }
}

/// The first word of a string is the subrange that ends at the first
/// whitespace position.
proof fn lemma_first_word_subrange(s: Seq<char>, k: int)
    requires
        0 <= k <= s.len(),
        forall|j: int| 0 <= j < k ==> !is_space(s[j]),
        k == s.len() || is_space(s[k]),
    ensures
        first_word(s) == s.subrange(0, k),
    decreases k,
{
    if k == 0 {
        assert(first_word(s) =~= s.subrange(0, 0));
    } else {
        assert(!is_space(s[0]));
        let d = s.drop_first();
        assert(d =~= s.subrange(1, s.len() as int));
        lemma_first_word_subrange(d, k - 1);
        assert(seq![s[0]] + d.subrange(0, k - 1) =~= s.subrange(0, k));
    }
}

/// Whether the character `c` is whitespace in the sense of [`is_space`].
fn is_space_char(c: char) -> (r: bool)
    ensures
        r == is_space(c),
{
    c == ' ' || c == '\t' || c == '\n' || c == '\r'
}

/// `s` without its leading and trailing whitespace.
pub fn trim(s: &str) -> (r: String)
    ensures
        r@ == trimmed(s@),
{
    let n = s.unicode_len();
    let mut lo: usize = 0;
    while lo < n && is_space_char(s.get_char(lo))
        invariant
            n == s@.len(),
            0 <= lo <= n,
            forall|j: int| 0 <= j < lo ==> is_space(s@[j]),
        decreases n - lo,
    {
        lo = lo + 1;
    }
    let mut hi: usize = n;
    while hi > lo && is_space_char(s.get_char(hi - 1))
        invariant
            n == s@.len(),
            0 <= lo <= hi <= n,
            forall|j: int| 0 <= j < lo ==> is_space(s@[j]),
            lo == n || !is_space(s@[lo as int]),
            forall|j: int| hi <= j < n ==> is_space(s@[j]),
        decreases hi,
    {
        hi = hi - 1;
    }
    proof {
        if lo == hi {
            assert(forall|j: int| lo <= j < n ==> is_space(s@[j]));
            lemma_trim_start_subrange(s@, n as int);
            let t = s@.subrange(n as int, n as int);
            assert(t.len() == 0);
            assert(trim_end(t) =~= s@.subrange(lo as int, hi as int));
        } else {
            lemma_trim_start_subrange(s@, lo as int);
            let t = s@.subrange(lo as int, n as int);
            lemma_trim_end_subrange(t, hi - lo);
            assert(t.subrange(0, hi - lo) =~= s@.subrange(lo as int, hi as int));
        }
    }
    s.substring_char(lo, hi).to_owned()
}

/// Whether `s` holds the character `c` anywhere.
pub fn contains(s: &str, c: char) -> (r: bool)
    ensures
        r == contains_char(s@, c),
{
    let n = s.unicode_len();
    let mut i: usize = 0;
    while i < n
        invariant
            n == s@.len(),
            0 <= i <= n,
            forall|j: int| 0 <= j < i ==> s@[j] != c,
        decreases n - i,
    {
        if s.get_char(i) == c {
            return true;
        }
        i = i + 1;
    }
    false
}

/// The longest whitespace-free prefix of `s`.
pub fn take_first_word(s: &str) -> (r: String)
    ensures
        r@ == first_word(s@),
{
    let n = s.unicode_len();
    let mut k: usize = 0;
    while k < n && !is_space_char(s.get_char(k))
        invariant
            n == s@.len(),
            0 <= k <= n,
            forall|j: int| 0 <= j < k ==> !is_space(s@[j]),
        decreases n - k,
    {
        k = k + 1;
    }
    proof {
        lemma_first_word_subrange(s@, k as int);
    }
    s.substring_char(0, k).to_owned()
}

/// The price token the text of one price element yields, if any.
pub fn extract_price_token(raw: &str) -> (r: Option<String>)
    ensures
        (r matches Some(t) ==> price_token(raw@) matches Some(m) && t@ == m),
        (r is None <==> price_token(raw@) is None),
{
    let t = trim(raw);
    if contains(t.as_str(), '\u{20ac}') {
        Some(take_first_word(t.as_str()))
    } else {
        None
    }
}

} // verus!
