//! Character-level text primitives: whitespace, trimming, ASCII case folding
//! and comparison, stated over `Seq<char>` and implemented over `&str`.

use vstd::prelude::*;

verus! {

/// The characters that carry the Unicode `White_Space` property.
pub open spec fn whitespace(c: char) -> bool {
    let n = c as u32;
    ||| 0x09 <= n <= 0x0D
    ||| n == 0x20
    ||| n == 0x85
    ||| n == 0xA0
    ||| n == 0x1680
    ||| 0x2000 <= n <= 0x200A
    ||| n == 0x2028
    ||| n == 0x2029
    ||| n == 0x202F
    ||| n == 0x205F
    ||| n == 0x3000
}

/// The ASCII lower-case form of a character: `A`..`Z` become `a`..`z`,
/// every other character stays as it is.
pub open spec fn lower(c: char) -> char {
    if 'A' <= c && c <= 'Z' {
        ((c as u8) + 32) as char
    } else {
        c
    }
}

/// A text with every character replaced by its ASCII lower-case form.
pub open spec fn lowered(s: Seq<char>) -> Seq<char> {
    Seq::new(s.len(), |i: int| lower(s[i]))
}

/// A text without its leading whitespace.
pub open spec fn skip_leading(s: Seq<char>) -> Seq<char>
    decreases s.len(),
{
    if s.len() > 0 && whitespace(s[0]) {
        skip_leading(s.drop_first())
    } else {
        s
    }
}

/// A text without its trailing whitespace.
pub open spec fn skip_trailing(s: Seq<char>) -> Seq<char>
    decreases s.len(),
{
    if s.len() > 0 && whitespace(s.last()) {
        skip_trailing(s.drop_last())
    } else {
        s
    }
}

/// A text without its leading and trailing whitespace.
pub open spec fn trimmed(s: Seq<char>) -> Seq<char> {
    skip_trailing(skip_leading(s))
}

/// A text that is empty or holds whitespace only.
pub open spec fn blank(s: Seq<char>) -> bool {
    forall|i: int| 0 <= i < s.len() ==> whitespace(#[trigger] s[i])
}

/// Cutting the first `k` characters, all whitespace, up to a character that
/// is not, is `skip_leading`.
pub proof fn lemma_skip_leading(s: Seq<char>, k: int)
    requires
        0 <= k <= s.len(),
        forall|i: int| 0 <= i < k ==> whitespace(#[trigger] s[i]),
        k < s.len() ==> !whitespace(s[k]),
    ensures
        skip_leading(s) == s.subrange(k, s.len() as int),
    decreases k,
{
    if k == 0 {
        assert(s.subrange(0, s.len() as int) =~= s);
    } else {
        let rest = s.drop_first();
        assert forall|i: int| 0 <= i < k - 1 implies whitespace(#[trigger] rest[i]) by {
            assert(rest[i] == s[i + 1]);
        }
        lemma_skip_leading(rest, k - 1);
        assert(rest.subrange(k - 1, rest.len() as int) =~= s.subrange(k, s.len() as int));
    }
}

/// Keeping the first `k` characters, where all after them are whitespace and
/// the last one kept is not, is `skip_trailing`.
pub proof fn lemma_skip_trailing(s: Seq<char>, k: int)
    requires
        0 <= k <= s.len(),
        forall|i: int| k <= i < s.len() ==> whitespace(#[trigger] s[i]),
        0 < k ==> !whitespace(s[k - 1]),
    ensures
        skip_trailing(s) == s.subrange(0, k),
    decreases s.len() - k,
{
    if k == s.len() {
        assert(s.subrange(0, k) =~= s);
    } else {
        let rest = s.drop_last();
        assert forall|i: int| k <= i < rest.len() implies whitespace(#[trigger] rest[i]) by {
            assert(rest[i] == s[i]);
        }
        lemma_skip_trailing(rest, k);
        assert(rest.subrange(0, k) =~= s.subrange(0, k));
    }
}

/// A text is blank exactly when trimming leaves nothing of it.
pub proof fn lemma_blank_iff_trimmed_empty(s: Seq<char>)
    ensures
        blank(s) <==> trimmed(s).len() == 0,
{
    let a = leading_count(s);
    lemma_leading_count(s);
    lemma_skip_leading(s, a);
    let inner = s.subrange(a, s.len() as int);
    let b = inner.len() - leading_count(inner.reverse());
    lemma_leading_count(inner.reverse());
    assert forall|i: int| b <= i < inner.len() implies whitespace(#[trigger] inner[i]) by {
        assert(inner[i] == inner.reverse()[inner.len() - 1 - i]);
    }
    if 0 < b {
        assert(inner[b - 1] == inner.reverse()[inner.len() - b]);
    }
    lemma_skip_trailing(inner, b);
    if a < s.len() {
        assert(!whitespace(inner[0]));
        assert(b > 0);
    }
}

/// The number of whitespace characters a text begins with.
pub open spec fn leading_count(s: Seq<char>) -> int
    decreases s.len(),
{
    if s.len() > 0 && whitespace(s[0]) {
        1 + leading_count(s.drop_first())
    } else {
        0
    }
}

proof fn lemma_leading_count(s: Seq<char>)
    ensures
        0 <= leading_count(s) <= s.len(),
        forall|i: int| 0 <= i < leading_count(s) ==> whitespace(#[trigger] s[i]),
        leading_count(s) < s.len() ==> !whitespace(s[leading_count(s)]),
    decreases s.len(),
{
    if s.len() > 0 && whitespace(s[0]) {
        let rest = s.drop_first();
        lemma_leading_count(rest);
        assert forall|i: int| 0 <= i < leading_count(s) implies whitespace(#[trigger] s[i]) by {
            if i > 0 {
                assert(s[i] == rest[i - 1]);
            }
        }
        if leading_count(s) < s.len() {
            assert(s[leading_count(s)] == rest[leading_count(rest)]);
        }
    }
}

/// Whether a character is whitespace.
pub fn is_whitespace(c: char) -> (r: bool)
    ensures
        r == whitespace(c),
{
    let n: u32 = c as u32;
    (0x09 <= n && n <= 0x0D) || n == 0x20 || n == 0x85 || n == 0xA0 || n == 0x1680 || (0x2000 <= n
        && n <= 0x200A) || n == 0x2028 || n == 0x2029 || n == 0x202F || n == 0x205F || n == 0x3000
}

/// The ASCII lower-case form of a character.
pub fn to_lower(c: char) -> (r: char)
    ensures
        r == lower(c),
{
    if 'A' <= c && c <= 'Z' {
        let b: u8 = c as u8;
        (b + 32) as char
    } else {
        c
    }
}

/// The characters of a string, in order.
pub fn to_chars(s: &str) -> (chars: Vec<char>)
    ensures
        chars@ == s@,
{
    let mut chars: Vec<char> = Vec::new();
    for c in it: s.chars()
        invariant
            it.seq() == s@,
            chars@ == it.seq().take(it.index()),
    {
        chars.push(c);
    }
    chars
}

/// `String::push` of the standard library, which appends one character to the
/// end of a string and leaves the characters before it as they were.
#[verifier::external_body]
fn push_char(s: &mut String, c: char)
    ensures
        final(s)@ == old(s)@.push(c),
{
    s.push(c);
}

/// The string made of the characters `from..to` of `chars`.
pub fn text_of(chars: &Vec<char>, from: usize, to: usize) -> (s: String)
    requires
        from <= to <= chars.len(),
    ensures
        s@ == chars@.subrange(from as int, to as int),
{
    let mut s = String::new();
    let mut i: usize = from;
    while i < to
        invariant
            from <= i <= to <= chars.len(),
            s@ == chars@.subrange(from as int, i as int),
        decreases to - i,
    {
        push_char(&mut s, chars[i]);
        i += 1;
    }
    s
}

/// The bounds of what trimming keeps of `chars`.
pub fn trim_bounds(chars: &Vec<char>) -> (r: (usize, usize))
    ensures
        r.0 <= r.1 <= chars.len(),
        chars@.subrange(r.0 as int, r.1 as int) == trimmed(chars@),
{
    let n: usize = chars.len();
    let mut a: usize = 0;
    while a < n && is_whitespace(chars[a])
        invariant
            a <= n == chars.len(),
            forall|i: int| 0 <= i < a ==> whitespace(#[trigger] chars@[i]),
        decreases n - a,
    {
        a += 1;
    }
    let mut b: usize = n;
    while a < b && is_whitespace(chars[b - 1])
        invariant
            a <= b <= n == chars.len(),
            forall|i: int| b <= i < n ==> whitespace(#[trigger] chars@[i]),
        decreases b,
    {
        b -= 1;
    }
    proof {
        let s = chars@;
        lemma_skip_leading(s, a as int);
        let inner = s.subrange(a as int, n as int);
        assert forall|i: int| b - a <= i < inner.len() implies whitespace(#[trigger] inner[i]) by {
            assert(inner[i] == s[a + i]);
        }
        if a < b {
            assert(inner[b - a - 1] == s[b - 1]);
        } else if a < n {
            assert(inner[0] == s[a as int]);
        }
        lemma_skip_trailing(inner, b - a);
        assert(inner.subrange(0, b - a) =~= s.subrange(a as int, b as int));
    }
    (a, b)
}

/// A string without its leading and trailing whitespace.
pub fn trim(s: &str) -> (r: String)
    ensures
        r@ == trimmed(s@),
{
    let chars = to_chars(s);
    let (a, b) = trim_bounds(&chars);
    text_of(&chars, a, b)
}

/// The characters of a string, trimmed and folded to ASCII lower case.
pub fn normalized_chars(s: &str) -> (r: Vec<char>)
    ensures
        r@ == lowered(trimmed(s@)),
{
    let chars = to_chars(s);
    let (a, b) = trim_bounds(&chars);
    let mut r: Vec<char> = Vec::new();
    let mut i: usize = a;
    while i < b
        invariant
            a <= i <= b <= chars.len(),
            r@ == lowered(chars@.subrange(a as int, i as int)),
        decreases b - i,
    {
        r.push(to_lower(chars[i]));
        i += 1;
        assert(r@ =~= lowered(chars@.subrange(a as int, i as int)));
    }
    r
}

/// A string trimmed and folded to ASCII lower case.
pub fn normalize(s: &str) -> (r: String)
    ensures
        r@ == lowered(trimmed(s@)),
{
    let chars = normalized_chars(s);
    let n: usize = chars.len();
    let r = text_of(&chars, 0, n);
    assert(chars@.subrange(0, n as int) =~= chars@);
    r
}

/// Whether `chars` is empty or holds whitespace only.
pub fn all_whitespace(chars: &Vec<char>) -> (r: bool)
    ensures
        r == blank(chars@),
{
    let n: usize = chars.len();
    let mut i: usize = 0;
    while i < n
        invariant
            i <= n == chars.len(),
            forall|k: int| 0 <= k < i ==> whitespace(#[trigger] chars@[k]),
        decreases n - i,
    {
        if !is_whitespace(chars[i]) {
            return false;
        }
        i += 1;
    }
    true
}

/// Whether a string is empty or holds whitespace only.
pub fn is_blank(s: &str) -> (r: bool)
    ensures
        r == blank(s@),
{
    let chars = to_chars(s);
    all_whitespace(&chars)
}

/// Whether `chars` spells exactly the text `word`.
pub fn spells(chars: &Vec<char>, word: &str) -> (r: bool)
    ensures
        r == (chars@ == word@),
{
    let other = to_chars(word);
    let n: usize = chars.len();
    if other.len() != n {
        return false;
    }
    let mut i: usize = 0;
    while i < n
        invariant
            i <= n == chars.len() == other.len(),
            other@ == word@,
            forall|k: int| 0 <= k < i ==> chars@[k] == other@[k],
        decreases n - i,
    {
        if chars[i] != other[i] {
            return false;
        }
        i += 1;
    }
    assert(chars@ =~= other@);
    true
}

/// Whether `chars` begins with the text `prefix`.
pub fn begins_with(chars: &Vec<char>, prefix: &str) -> (r: bool)
    ensures
        r == prefix@.is_prefix_of(chars@),
{
    let other = to_chars(prefix);
    let n: usize = other.len();
    if chars.len() < n {
        return false;
    }
    let mut i: usize = 0;
    while i < n
        invariant
            i <= n == other.len() <= chars.len(),
            other@ == prefix@,
            forall|k: int| 0 <= k < i ==> chars@[k] == other@[k],
        decreases n - i,
    {
        if chars[i] != other[i] {
            assert(chars@.subrange(0, n as int)[i as int] != other@[i as int]);
            return false;
        }
        i += 1;
    }
    assert(chars@.subrange(0, n as int) =~= other@);
    true
}

/// Whether `chars` ends with the text `suffix`.
pub fn finishes_with(chars: &Vec<char>, suffix: &str) -> (r: bool)
    ensures
        r == suffix@.is_suffix_of(chars@),
{
    let other = to_chars(suffix);
    let n: usize = other.len();
    let m: usize = chars.len();
    if m < n {
        return false;
    }
    let d: usize = m - n;
    let mut i: usize = 0;
    while i < n
        invariant
            i <= n == other.len(),
            m == chars.len(),
            d + n == m,
            other@ == suffix@,
            forall|k: int| 0 <= k < i ==> chars@[d + k] == other@[k],
        decreases n - i,
    {
        if chars[d + i] != other[i] {
            assert(chars@.subrange(d as int, m as int)[i as int] != other@[i as int]);
            return false;
        }
        i += 1;
    }
    assert(chars@.subrange(d as int, m as int) =~= other@);
    true
}

} // verus!
