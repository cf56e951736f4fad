//! Text helpers: character views of strings, Unicode lower-casing and
//! substring search.

use vstd::prelude::*;

verus! {

/// The characters of `s` lowered as `str::to_lowercase` lowers them.
pub uninterp spec fn lowercase(s: Seq<char>) -> Seq<char>;

/// Every character of `s` is ASCII.
pub open spec fn is_ascii_text(s: Seq<char>) -> bool {
    forall|i: int| 0 <= i < s.len() ==> (#[trigger] s[i] as u32) < 128
}

/// `c` in lower case if it is an ASCII capital, else `c`.
pub open spec fn ascii_lower_char(c: char) -> char {
    if 'A' <= c <= 'Z' { ((c as u32) + 32) as char } else { c }
}

/// `c` in upper case if it is an ASCII small letter, else `c`.
pub open spec fn ascii_upper_char(c: char) -> char {
    if 'a' <= c <= 'z' { ((c as u32) - 32) as char } else { c }
}

/// `s` with its ASCII capitals lowered (`str::to_ascii_lowercase`).
pub open spec fn ascii_lowercase(s: Seq<char>) -> Seq<char> {
    s.map_values(|c: char| ascii_lower_char(c))
}

/// `s` with its ASCII small letters raised (`str::to_ascii_uppercase`).
pub open spec fn ascii_uppercase(s: Seq<char>) -> Seq<char> {
    s.map_values(|c: char| ascii_upper_char(c))
}

/// Calls `str::to_lowercase`. Its result is a function of the input text
/// alone (the Unicode lower-case mapping that its documentation refers
/// to), which the contract names. Of that function it states one fact: on
/// ASCII text it lowers exactly the ASCII capitals, since Unicode maps
/// `A`..`Z` to `a`..`z`, one character each, and leaves every other ASCII
/// character as it is (the documentation's own example lowers "HELLO" to
/// "hello").
#[verifier::external_body]
pub fn to_lowercase(s: &str) -> (r: String)
    ensures
        r@ == lowercase(s@),
        is_ascii_text(s@) ==> r@ == ascii_lowercase(s@),
{
    s.to_lowercase()
}

/// `needle` occurs in `haystack` starting at position `i`.
pub open spec fn occurs_at(haystack: Seq<char>, needle: Seq<char>, i: int) -> bool {
    &&& 0 <= i
    &&& i + needle.len() <= haystack.len()
    &&& haystack.subrange(i, i + needle.len()) == needle
}

/// `needle` is a contiguous part of `haystack` (the empty text is part of every text).
pub open spec fn contains_text(haystack: Seq<char>, needle: Seq<char>) -> bool {
    exists|i: int| occurs_at(haystack, needle, i)
}

/// Substring search, spelled out: `needle` is contained in `haystack`
/// exactly when, at some position from the first to the last one where it
/// fits, the characters of `haystack` are those of `needle`; in particular a
/// needle that ends the haystack is contained, and the empty needle is
/// contained in every text.
pub proof fn lemma_contains_text_positions(haystack: Seq<char>, needle: Seq<char>)
    ensures
        contains_text(haystack, needle) == exists|i: int|
            0 <= i && i + needle.len() <= haystack.len() && #[trigger] haystack.subrange(
                i,
                i + needle.len(),
            ) == needle,
        needle.len() <= haystack.len() && haystack.subrange(
            haystack.len() - needle.len(),
            haystack.len() as int,
        ) == needle ==> contains_text(haystack, needle),
        contains_text(haystack, Seq::empty()),
{
    if contains_text(haystack, needle) {
        let i = choose|i: int| occurs_at(haystack, needle, i);
        assert(0 <= i && i + needle.len() <= haystack.len() && haystack.subrange(
            i,
            i + needle.len(),
        ) == needle);
    }
    if exists|i: int|
        0 <= i && i + needle.len() <= haystack.len() && #[trigger] haystack.subrange(
            i,
            i + needle.len(),
        ) == needle {
        let i = choose|i: int|
            0 <= i && i + needle.len() <= haystack.len() && #[trigger] haystack.subrange(
                i,
                i + needle.len(),
            ) == needle;
        assert(occurs_at(haystack, needle, i));
    }
    if needle.len() <= haystack.len() && haystack.subrange(
        haystack.len() - needle.len(),
        haystack.len() as int,
    ) == needle {
        assert(occurs_at(haystack, needle, haystack.len() - needle.len()));
    }
    assert(haystack.subrange(0, 0) =~= Seq::<char>::empty());
    assert(occurs_at(haystack, Seq::empty(), 0));
}

/// The characters of `s`, in order.
pub fn chars_of(s: &str) -> (v: Vec<char>)
    ensures
        v@ == s@,
{
    let mut v: Vec<char> = Vec::new();
    proof {
        broadcast use vstd::string::group_string_axioms;
    }
    for c in it: s.chars()
        invariant
            it.seq() == s@,
            v@ == it.seq().take(it.index() as int),
    {
        v.push(c);
    }
    v
}

/// Whether `needle` occurs in `haystack` at position `start`.
fn occurs_at_index(haystack: &Vec<char>, needle: &Vec<char>, start: usize) -> (r: bool)
    requires
        start + needle@.len() <= haystack@.len(),
    ensures
        r == occurs_at(haystack@, needle@, start as int),
{
    let n = needle.len();
    let mut k: usize = 0;
    while k < n
        invariant
            n == needle@.len(),
            start + n <= haystack.len(),
            k <= n,
            forall|j: int| 0 <= j < k ==> haystack@[start + j] == needle@[j],
        decreases n - k,
    {
        if haystack[start + k] != needle[k] {
            assert(haystack@.subrange(start as int, start + n)[k as int] != needle@[k as int]);
            return false;
        }
        k = k + 1;
    }
    assert(haystack@.subrange(start as int, start + n) =~= needle@);
    true
}

/// Whether `needle` occurs in `haystack`, as `str::contains` with a `&str`
/// pattern answers it: a search over the characters of both texts.
pub fn contains(haystack: &str, needle: &str) -> (r: bool)
    ensures
        r == contains_text(haystack@, needle@),
        r == exists|i: int|
            0 <= i && i + needle@.len() <= haystack@.len() && #[trigger] haystack@.subrange(
                i,
                i + needle@.len(),
            ) == needle@,
{
    proof {
        lemma_contains_text_positions(haystack@, needle@);
    }
    let h = chars_of(haystack);
    let n = chars_of(needle);
    if n.len() > h.len() {
        assert forall|i: int| !occurs_at(haystack@, needle@, i) by {}
        return false;
    }
    let last = h.len() - n.len();
    let mut i: usize = 0;
    loop
        invariant
            h@ == haystack@,
            n@ == needle@,
            last + n@.len() == h@.len(),
            i <= last,
            forall|j: int| 0 <= j < i ==> !occurs_at(haystack@, needle@, j),
            contains_text(haystack@, needle@) == exists|j: int|
                0 <= j && j + needle@.len() <= haystack@.len() && #[trigger] haystack@.subrange(
                    j,
                    j + needle@.len(),
                ) == needle@,
        decreases last - i,
    {
        if occurs_at_index(&h, &n, i) {
            return true;
        }
        if i == last {
            assert forall|j: int| !occurs_at(haystack@, needle@, j) by {}
            return false;
        }
        i = i + 1;
    }
}

} // verus!
