//! Character-level text helpers shared by the parsers of the panel.
//!
//! Text is modelled as a `Seq<char>` (the view of `str` and `String`).
//! The spec functions here state what the standard string methods that the
//! panel relies on (`trim`, `find`, `rfind`, `contains`, `lines`, ...) compute,
//! and the executable functions compute them on vectors of characters.
use vstd::prelude::*;

use crate::search::{first_match, lemma_first_match_at, lemma_first_match_none};

verus! {

broadcast use vstd::string::group_string_axioms;

// ---------------------------------------------------------------------------
// Specifications
// ---------------------------------------------------------------------------

/// The Unicode `White_Space` property, which `char::is_whitespace` tests and
/// `str::trim` strips.
pub open spec fn is_ws(c: char) -> bool {
    let u = c as u32;
    ||| 0x09 <= u <= 0x0D
    ||| u == 0x20
    ||| u == 0x85
    ||| u == 0xA0
    ||| u == 0x1680
    ||| 0x2000 <= u <= 0x200A
    ||| u == 0x2028
    ||| u == 0x2029
    ||| u == 0x202F
    ||| u == 0x205F
    ||| u == 0x3000
}

/// `str::trim_start`: the text without its leading whitespace.
pub open spec fn trim_start(s: Seq<char>) -> Seq<char>
    decreases s.len(),
{
    if s.len() > 0 && is_ws(s[0]) {
        trim_start(s.drop_first())
    } else {
        s
    }
}

/// `str::trim_end`: the text without its trailing whitespace.
pub open spec fn trim_end(s: Seq<char>) -> Seq<char>
    decreases s.len(),
{
    if s.len() > 0 && is_ws(s.last()) {
        trim_end(s.drop_last())
    } else {
        s
    }
}

/// `str::trim`: the text without leading and trailing whitespace.
pub open spec fn trim(s: Seq<char>) -> Seq<char> {
    trim_end(trim_start(s))
}

/// `str::trim_start_matches(c)`: the text without all leading copies of `c`.
pub open spec fn strip_start(s: Seq<char>, c: char) -> Seq<char>
    decreases s.len(),
{
    if s.len() > 0 && s[0] == c {
        strip_start(s.drop_first(), c)
    } else {
        s
    }
}

/// `str::trim_end_matches(c)`: the text without all trailing copies of `c`.
pub open spec fn strip_end(s: Seq<char>, c: char) -> Seq<char>
    decreases s.len(),
{
    if s.len() > 0 && s.last() == c {
        strip_end(s.drop_last(), c)
    } else {
        s
    }
}

/// `str::find(c)` counted in characters: the index of the first `c`.
pub open spec fn find_char(s: Seq<char>, c: char) -> Option<int>
    decreases s.len(),
{
    if s.len() == 0 {
        None
    } else if s[0] == c {
        Some(0)
    } else {
        match find_char(s.drop_first(), c) {
            Some(i) => Some(i + 1),
            None => None,
        }
    }
}

/// The pattern `p` occurs in `s` starting at index `k`.
pub open spec fn occurs_at(s: Seq<char>, p: Seq<char>, k: int) -> bool {
    &&& 0 <= k
    &&& k + p.len() <= s.len()
    &&& s.subrange(k, k + p.len()) == p
}

/// `str::contains(p)`.
pub open spec fn contains(s: Seq<char>, p: Seq<char>) -> bool {
    exists|k: int| occurs_at(s, p, k)
}

/// `str::starts_with(p)`.
pub open spec fn starts_with(s: Seq<char>, p: Seq<char>) -> bool {
    occurs_at(s, p, 0)
}

/// The greatest `k < n` at which `p` occurs in `s`.
pub open spec fn rfind_before(s: Seq<char>, p: Seq<char>, n: int) -> Option<int>
    decreases n,
{
    if n <= 0 {
        None
    } else if occurs_at(s, p, n - 1) {
        Some(n - 1)
    } else {
        rfind_before(s, p, n - 1)
    }
}

/// `str::rfind(p)` counted in characters: the last index at which `p` occurs.
pub open spec fn rfind(s: Seq<char>, p: Seq<char>) -> Option<int> {
    rfind_before(s, p, s.len() as int + 1)
}

/// `char::is_ascii_digit`.
pub open spec fn is_digit(c: char) -> bool {
    '0' <= c && c <= '9'
}

/// Every character is an ASCII digit.
pub open spec fn all_digits(s: Seq<char>) -> bool {
    forall|i: int| 0 <= i < s.len() ==> is_digit(#[trigger] s[i])
}

/// The line without a carriage return that ended it.
pub open spec fn strip_cr(l: Seq<char>) -> Seq<char> {
    if l.len() > 0 && l.last() == '\r' {
        l.drop_last()
    } else {
        l
    }
}

/// `str::lines`: the text split at `\n` (a `\r` just before it is dropped);
/// a final line ending is optional and yields no empty last line.
pub open spec fn lines(s: Seq<char>) -> Seq<Seq<char>>
    decreases s.len(),
{
    if s.len() == 0 {
        Seq::empty()
    } else {
        match find_char(s, '\n') {
            Some(i) => {
                if 0 <= i < s.len() {
                    seq![strip_cr(s.take(i))] + lines(s.skip(i + 1))
                } else {
                    seq![s]
                }
            },
            None => seq![s],
        }
    }
}

/// The number that a string of decimal digits denotes.
pub open spec fn digits_value(s: Seq<char>) -> nat
    decreases s.len(),
{
    if s.len() == 0 {
        0
    } else {
        digits_value(s.drop_last()) * 10 + ((s.last() as u32) - ('0' as u32)) as nat
    }
}

/// The text after an optional leading `+`.
pub open spec fn unsigned_digits(s: Seq<char>) -> Seq<char> {
    if s.len() > 0 && s[0] == '+' {
        s.drop_first()
    } else {
        s
    }
}

/// `str::parse::<u32>`: an optional `+`, then one or more digits whose value
/// fits in a `u32`.
pub open spec fn parse_u32(s: Seq<char>) -> Option<u32> {
    let d = unsigned_digits(s);
    if d.len() > 0 && all_digits(d) && digits_value(d) <= u32::MAX {
        Some(digits_value(d) as u32)
    } else {
        None
    }
}

/// The ASCII digit for a value below ten.
pub open spec fn digit_char(d: nat) -> char {
    (('0' as u32) + d) as char
}

/// The decimal representation of `n`, as `Display` writes it for integers.
pub open spec fn decimal(n: nat) -> Seq<char>
    decreases n,
{
    if n < 10 {
        seq![digit_char(n)]
    } else {
        decimal(n / 10).push(digit_char(n % 10))
    }
}

/// The number of bytes that the UTF-8 encoding of `c` takes.
pub open spec fn char_utf8_len(c: char) -> nat {
    let u = c as u32;
    if u < 0x80 {
        1
    } else if u < 0x800 {
        2
    } else if u < 0x10000 {
        3
    } else {
        4
    }
}

/// The number of bytes of the UTF-8 encoding of the text (what `str::len` returns).
pub open spec fn utf8_len(s: Seq<char>) -> nat
    decreases s.len(),
{
    if s.len() == 0 {
        0
    } else {
        utf8_len(s.drop_last()) + char_utf8_len(s.last())
    }
}

/// The number of characters whose encoding takes exactly `n` bytes, if the
/// byte offset `n` falls on a character boundary of the text.
pub open spec fn chars_in_bytes(s: Seq<char>, n: nat) -> Option<int> {
    if exists|k: int| 0 <= k <= s.len() && utf8_len(s.take(k)) == n {
        Some(choose|k: int| 0 <= k <= s.len() && utf8_len(s.take(k)) == n)
    } else {
        None
    }
}

/// What `str::to_lowercase` returns for a text.
pub uninterp spec fn lowercase(s: Seq<char>) -> Seq<char>;

// ---------------------------------------------------------------------------
// Lemmas
// ---------------------------------------------------------------------------

/// `find_char` is the first index holding the character.
pub proof fn lemma_find_char_at(s: Seq<char>, c: char, i: int)
    requires
        0 <= i < s.len(),
        s[i] == c,
        forall|j: int| 0 <= j < i ==> s[j] != c,
    ensures
        find_char(s, c) == Some(i),
    decreases s.len(),
{
    if i > 0 {
        lemma_find_char_at(s.drop_first(), c, i - 1);
    }
}

/// `find_char` is `None` when the character does not occur.
pub proof fn lemma_find_char_none(s: Seq<char>, c: char)
    requires
        forall|j: int| 0 <= j < s.len() ==> s[j] != c,
    ensures
        find_char(s, c) is None,
    decreases s.len(),
{
    if s.len() > 0 {
        lemma_find_char_none(s.drop_first(), c);
    }
}

/// A found index lies within the text and holds the character, and no
/// earlier index does.
pub proof fn lemma_find_char_spec(s: Seq<char>, c: char)
    ensures
        match find_char(s, c) {
            Some(i) => 0 <= i < s.len() && s[i] == c && forall|j: int| 0 <= j < i ==> s[j] != c,
            None => forall|j: int| 0 <= j < s.len() ==> s[j] != c,
        },
    decreases s.len(),
{
    if s.len() > 0 && s[0] != c {
        lemma_find_char_spec(s.drop_first(), c);
        assert forall|j: int| 1 <= j < s.len() implies s[j] == s.drop_first()[j - 1] by {}
    }
}

/// The byte length of a prefix grows by the width of the next character.
pub proof fn lemma_utf8_len_take_step(s: Seq<char>, k: int)
    requires
        0 <= k < s.len(),
    ensures
        utf8_len(s.take(k + 1)) == utf8_len(s.take(k)) + char_utf8_len(s[k]),
{
    assert(s.take(k + 1).drop_last() =~= s.take(k));
}

/// The byte length of prefixes is strictly increasing in their length.
pub proof fn lemma_utf8_len_take_mono(s: Seq<char>, a: int, b: int)
    requires
        0 <= a < b <= s.len(),
    ensures
        utf8_len(s.take(a)) < utf8_len(s.take(b)),
    decreases b - a,
{
    lemma_utf8_len_take_step(s, b - 1);
    if a < b - 1 {
        lemma_utf8_len_take_mono(s, a, b - 1);
    }
}

/// The value of a digit string is at least the value of any of its prefixes.
pub proof fn lemma_digits_value_prefix(s: Seq<char>, i: int)
    requires
        0 <= i <= s.len(),
        all_digits(s),
    ensures
        digits_value(s.take(i)) <= digits_value(s),
    decreases s.len() - i,
{
    if i < s.len() {
        lemma_digits_value_prefix(s, i + 1);
        assert(s.take(i + 1).drop_last() =~= s.take(i));
        assert(is_digit(s[i]));
    } else {
        assert(s.take(i) =~= s);
    }
}

/// The characters of `decimal(n)` are digits and denote `n`.
pub proof fn lemma_decimal(n: nat)
    ensures
        decimal(n).len() > 0,
        all_digits(decimal(n)),
        digits_value(decimal(n)) == n,
    decreases n,
{
    let last = digit_char(n % 10);
    assert((last as u32) - ('0' as u32) == n % 10);
    if n < 10 {
        assert(decimal(n).drop_last() =~= Seq::<char>::empty());
        assert(decimal(n).last() == last);
        assert(digits_value(Seq::<char>::empty()) == 0);
        assert(digits_value(decimal(n)) == digits_value(decimal(n).drop_last()) * 10 + n % 10);
    } else {
        lemma_decimal(n / 10);
        let d = decimal(n / 10);
        assert(decimal(n).drop_last() =~= d);
        assert(decimal(n).last() == last);
        assert(digits_value(decimal(n)) == digits_value(d) * 10 + n % 10);
        assert((n / 10) * 10 + n % 10 == n);
        assert forall|i: int| 0 <= i < decimal(n).len() implies is_digit(#[trigger] decimal(n)[i]) by {
            if i < d.len() {
                assert(decimal(n)[i] == d[i]);
            }
        }
    }
}

// ---------------------------------------------------------------------------
// Executable helpers
// ---------------------------------------------------------------------------

/// `String::push`.
#[verifier::external_body]
fn push_char(s: &mut String, c: char)
    ensures
        final(s)@ == old(s)@.push(c),
{
    s.push(c)
}

/// `str::to_lowercase`; what it returns is named `lowercase`.
#[verifier::external_body]
pub(crate) fn to_lowercase(s: &str) -> (r: String)
    ensures
        r@ == lowercase(s@),
{
    s.to_lowercase()
}

/// The characters of a string slice, in order.
pub fn chars_of(s: &str) -> (v: Vec<char>)
    ensures
        v@ == s@,
{
    let mut v: Vec<char> = Vec::new();
    for c in it: s.chars()
        invariant
            v@ == it.seq().take(it.index() as int),
    {
        v.push(c);
    }
    v
}

/// A string holding the given characters.
pub fn string_of(v: &Vec<char>) -> (s: String)
    ensures
        s@ == v@,
{
    let mut s = String::new();
    let mut i: usize = 0;
    while i < v.len()
        invariant
            i <= v.len(),
            s@ == v@.take(i as int),
        decreases v.len() - i,
    {
        push_char(&mut s, v[i]);
        assert(v@.take(i + 1) =~= v@.take(i as int).push(v@[i as int]));
        i += 1;
    }
    assert(v@.take(v.len() as int) =~= v@);
    s
}

/// The characters of `v` from index `lo` up to (not including) `hi`.
pub fn subvec(v: &Vec<char>, lo: usize, hi: usize) -> (r: Vec<char>)
    requires
        lo <= hi <= v.len(),
    ensures
        r@ == v@.subrange(lo as int, hi as int),
{
    let mut r: Vec<char> = Vec::new();
    let mut i: usize = lo;
    while i < hi
        invariant
            lo <= i <= hi <= v.len(),
            r@ == v@.subrange(lo as int, i as int),
        decreases hi - i,
    {
        r.push(v[i]);
        assert(v@.subrange(lo as int, i + 1) =~= v@.subrange(lo as int, i as int).push(v@[i as int]));
        i += 1;
    }
    r
}

/// The concatenation of two character vectors.
pub fn concat(a: &Vec<char>, b: &Vec<char>) -> (r: Vec<char>)
    ensures
        r@ == a@ + b@,
{
    let mut r = subvec(a, 0, a.len());
    assert(a@.subrange(0, a.len() as int) =~= a@);
    let mut i: usize = 0;
    while i < b.len()
        invariant
            i <= b.len(),
            r@ == a@ + b@.take(i as int),
        decreases b.len() - i,
    {
        r.push(b[i]);
        assert(a@ + b@.take(i + 1) =~= (a@ + b@.take(i as int)).push(b@[i as int]));
        i += 1;
    }
    assert(b@.take(b.len() as int) =~= b@);
    r
}

/// Two character vectors hold the same text.
pub fn same_chars(a: &Vec<char>, b: &Vec<char>) -> (r: bool)
    ensures
        r == (a@ == b@),
{
    if a.len() != b.len() {
        return false;
    }
    let mut i: usize = 0;
    while i < a.len()
        invariant
            a.len() == b.len(),
            i <= a.len(),
            forall|j: int| 0 <= j < i ==> a@[j] == b@[j],
        decreases a.len() - i,
    {
        if a[i] != b[i] {
            return false;
        }
        i += 1;
    }
    assert(a@ =~= b@);
    true
}

/// `char::is_whitespace`.
pub fn is_whitespace(c: char) -> (b: bool)
    ensures
        b == is_ws(c),
{
    let u = c as u32;
    (0x09 <= u && u <= 0x0D) || u == 0x20 || u == 0x85 || u == 0xA0 || u == 0x1680 || (0x2000 <= u
        && u <= 0x200A) || u == 0x2028 || u == 0x2029 || u == 0x202F || u == 0x205F || u == 0x3000
}

/// `char::is_ascii_digit`.
pub fn is_ascii_digit(c: char) -> (b: bool)
    ensures
        b == is_digit(c),
{
    '0' <= c && c <= '9'
}

/// The text without its leading whitespace.
pub fn trim_start_chars(v: &Vec<char>) -> (r: Vec<char>)
    ensures
        r@ == trim_start(v@),
{
    let mut i: usize = 0;
    assert(v@.skip(0) =~= v@);
    while i < v.len() && is_whitespace(v[i])
        invariant
            i <= v.len(),
            trim_start(v@) == trim_start(v@.skip(i as int)),
        decreases v.len() - i,
    {
        assert(v@.skip(i as int).drop_first() =~= v@.skip(i + 1));
        i += 1;
    }
    assert(v@.subrange(i as int, v.len() as int) =~= v@.skip(i as int));
    subvec(v, i, v.len())
}

/// The text without its trailing whitespace.
pub fn trim_end_chars(v: &Vec<char>) -> (r: Vec<char>)
    ensures
        r@ == trim_end(v@),
{
    let mut j: usize = v.len();
    assert(v@.take(j as int) =~= v@);
    while j > 0 && is_whitespace(v[j - 1])
        invariant
            j <= v.len(),
            trim_end(v@) == trim_end(v@.take(j as int)),
        decreases j,
    {
        assert(v@.take(j as int).drop_last() =~= v@.take(j - 1));
        j -= 1;
    }
    assert(v@.subrange(0, j as int) =~= v@.take(j as int));
    subvec(v, 0, j)
}

/// The text without leading and trailing whitespace.
pub fn trim_chars(v: &Vec<char>) -> (r: Vec<char>)
    ensures
        r@ == trim(v@),
{
    let s = trim_start_chars(v);
    trim_end_chars(&s)
}

/// The text without all leading copies of `c`.
pub fn strip_start_chars(v: &Vec<char>, c: char) -> (r: Vec<char>)
    ensures
        r@ == strip_start(v@, c),
{
    let mut i: usize = 0;
    assert(v@.skip(0) =~= v@);
    while i < v.len() && v[i] == c
        invariant
            i <= v.len(),
            strip_start(v@, c) == strip_start(v@.skip(i as int), c),
        decreases v.len() - i,
    {
        assert(v@.skip(i as int).drop_first() =~= v@.skip(i + 1));
        i += 1;
    }
    assert(v@.subrange(i as int, v.len() as int) =~= v@.skip(i as int));
    subvec(v, i, v.len())
}

/// The text without all trailing copies of `c`.
pub fn strip_end_chars(v: &Vec<char>, c: char) -> (r: Vec<char>)
    ensures
        r@ == strip_end(v@, c),
{
    let mut j: usize = v.len();
    assert(v@.take(j as int) =~= v@);
    while j > 0 && v[j - 1] == c
        invariant
            j <= v.len(),
            strip_end(v@, c) == strip_end(v@.take(j as int), c),
        decreases j,
    {
        assert(v@.take(j as int).drop_last() =~= v@.take(j - 1));
        j -= 1;
    }
    assert(v@.subrange(0, j as int) =~= v@.take(j as int));
    subvec(v, 0, j)
}

/// The index of the first `c` in the text.
pub fn find_char_in(v: &Vec<char>, c: char) -> (r: Option<usize>)
    ensures
        match r {
            Some(i) => find_char(v@, c) == Some(i as int),
            None => find_char(v@, c) is None,
        },
{
    let mut i: usize = 0;
    while i < v.len()
        invariant
            i <= v.len(),
            forall|j: int| 0 <= j < i ==> v@[j] != c,
        decreases v.len() - i,
    {
        if v[i] == c {
            proof {
                lemma_find_char_at(v@, c, i as int);
            }
            return Some(i);
        }
        i += 1;
    }
    proof {
        lemma_find_char_none(v@, c);
    }
    None
}

/// Whether the pattern occurs in the text at index `k`.
pub fn occurs_at_index(v: &Vec<char>, p: &Vec<char>, k: usize) -> (r: bool)
    ensures
        r == occurs_at(v@, p@, k as int),
{
    if k > v.len() || p.len() > v.len() - k {
        return false;
    }
    let mut i: usize = 0;
    while i < p.len()
        invariant
            k + p.len() <= v.len(),
            i <= p.len(),
            forall|j: int| 0 <= j < i ==> v@[k + j] == p@[j],
        decreases p.len() - i,
    {
        if v[k + i] != p[i] {
            assert(v@.subrange(k as int, k + p.len())[i as int] != p@[i as int]);
            return false;
        }
        i += 1;
    }
    assert(v@.subrange(k as int, k + p.len()) =~= p@);
    true
}

/// Whether the text starts with the pattern.
pub fn starts_with_chars(v: &Vec<char>, p: &Vec<char>) -> (r: bool)
    ensures
        r == starts_with(v@, p@),
{
    occurs_at_index(v, p, 0)
}

/// Whether the pattern occurs anywhere in the text.
pub fn contains_chars(v: &Vec<char>, p: &Vec<char>) -> (r: bool)
    ensures
        r == contains(v@, p@),
{
    if p.len() > v.len() {
        assert forall|k: int| !occurs_at(v@, p@, k) by {}
        return false;
    }
    let last = v.len() - p.len();
    let mut k: usize = 0;
    while k <= last
        invariant
            last == v.len() - p.len(),
            p.len() <= v.len(),
            k <= last + 1,
            forall|j: int| 0 <= j < k ==> !occurs_at(v@, p@, j),
        decreases last + 1 - k,
    {
        if occurs_at_index(v, p, k) {
            return true;
        }
        if k == last {
            assert forall|j: int| !occurs_at(v@, p@, j) by {
                if 0 <= j && j + p@.len() <= v@.len() {
                    assert(j <= k);
                }
            }
            return false;
        }
        k += 1;
    }
    assert forall|j: int| !occurs_at(v@, p@, j) by {}
    false
}

/// The last index at which the pattern occurs in the text.
pub fn rfind_chars(v: &Vec<char>, p: &Vec<char>) -> (r: Option<usize>)
    ensures
        match r {
            Some(k) => rfind(v@, p@) == Some(k as int) && occurs_at(v@, p@, k as int),
            None => rfind(v@, p@) is None,
        },
{
    let mut k: usize = v.len();
    loop
        invariant
            k <= v.len(),
            rfind(v@, p@) == rfind_before(v@, p@, k + 1),
        decreases k,
    {
        if occurs_at_index(v, p, k) {
            return Some(k);
        }
        if k == 0 {
            assert(rfind_before(v@, p@, 0) is None);
            return None;
        }
        k -= 1;
    }
}

/// Whether every character is an ASCII digit.
pub fn all_ascii_digits(v: &Vec<char>) -> (r: bool)
    ensures
        r == all_digits(v@),
{
    let mut i: usize = 0;
    while i < v.len()
        invariant
            i <= v.len(),
            forall|j: int| 0 <= j < i ==> is_digit(#[trigger] v@[j]),
        decreases v.len() - i,
    {
        if !is_ascii_digit(v[i]) {
            return false;
        }
        i += 1;
    }
    true
}

/// The text of the first line that starts at `pos`, and the position just
/// after its line ending.
pub fn next_line(v: &Vec<char>, pos: usize) -> (r: (Vec<char>, usize))
    requires
        pos < v.len(),
    ensures
        pos < r.1 <= v.len(),
        lines(v@.skip(pos as int)) == seq![r.0@] + lines(v@.skip(r.1 as int)),
{
    let rest = subvec(v, pos, v.len());
    let ghost s = v@.skip(pos as int);
    assert(rest@ =~= s);
    match find_char_in(&rest, '\n') {
        Some(i) => {
            proof {
                lemma_find_char_spec(s, '\n');
            }
            let mut end = i;
            if i > 0 && rest[i - 1] == '\r' {
                end = i - 1;
            }
            let line = subvec(&rest, 0, end);
            if i > 0 {
                assert(s.take(i as int).drop_last() =~= s.subrange(0, i - 1));
            }
            assert(s.skip(i + 1) =~= v@.skip(pos + i + 1));
            assert(line@ == strip_cr(s.take(i as int))) by {
                assert(s.take(i as int) =~= s.subrange(0, i as int));
            }
            (line, pos + i + 1)
        },
        None => {
            assert(v@.skip(v.len() as int) =~= Seq::<char>::empty());
            assert(rest@ =~= rest@.subrange(0, rest.len() as int));
            let line = subvec(&rest, 0, rest.len());
            (line, v.len())
        },
    }
}

/// `str::parse::<u32>` on a text.
pub fn parse_u32_chars(v: &Vec<char>) -> (r: Option<u32>)
    ensures
        r == parse_u32(v@),
{
    let start: usize = if v.len() > 0 && v[0] == '+' {
        1
    } else {
        0
    };
    let d = subvec(v, start, v.len());
    assert(d@ == unsigned_digits(v@)) by {
        if start == 1 {
            assert(d@ =~= v@.drop_first());
        } else {
            assert(d@ =~= v@);
        }
    }
    if d.len() == 0 {
        return None;
    }
    let mut acc: u64 = 0;
    let mut i: usize = 0;
    while i < d.len()
        invariant
            i <= d.len(),
            acc == digits_value(d@.take(i as int)),
            acc <= u32::MAX,
            all_digits(d@.take(i as int)),
            d@ == unsigned_digits(v@),
        decreases d.len() - i,
    {
        let c = d[i];
        if !is_ascii_digit(c) {
            assert(!all_digits(d@));
            return None;
        }
        assert(d@.take(i + 1).drop_last() =~= d@.take(i as int));
        acc = acc * 10 + ((c as u32) - ('0' as u32)) as u64;
        assert(acc == digits_value(d@.take(i + 1)));
        assert(all_digits(d@.take(i + 1))) by {
            assert forall|j: int| 0 <= j < i + 1 implies is_digit(#[trigger] d@.take(i + 1)[j]) by {
                if j < i {
                    assert(d@.take(i + 1)[j] == d@.take(i as int)[j]);
                }
            }
        }
        if acc > 0xFFFF_FFFF {
            proof {
                if all_digits(d@) {
                    lemma_digits_value_prefix(d@, i + 1);
                }
            }
            return None;
        }
        i += 1;
    }
    assert(d@.take(d.len() as int) =~= d@);
    Some(acc as u32)
}

/// The decimal representation of a number.
pub fn decimal_chars(n: usize) -> (r: Vec<char>)
    ensures
        r@ == decimal(n as nat),
    decreases n,
{
    let d = (n % 10) as u32;
    let c = char_of_digit(d);
    if n < 10 {
        let mut r: Vec<char> = Vec::new();
        r.push(c);
        assert(r@ =~= seq![digit_char(n as nat)]);
        r
    } else {
        let mut r = decimal_chars(n / 10);
        r.push(c);
        r
    }
}

/// The ASCII digit for a value below ten.
pub(crate) fn char_of_digit(d: u32) -> (c: char)
    requires
        d < 10,
    ensures
        c == digit_char(d as nat),
{
    if d == 0 {
        '0'
    } else if d == 1 {
        '1'
    } else if d == 2 {
        '2'
    } else if d == 3 {
        '3'
    } else if d == 4 {
        '4'
    } else if d == 5 {
        '5'
    } else if d == 6 {
        '6'
    } else if d == 7 {
        '7'
    } else if d == 8 {
        '8'
    } else {
        '9'
    }
}

/// The number of bytes that the UTF-8 encoding of `c` takes.
pub fn utf8_width(c: char) -> (n: usize)
    ensures
        n == char_utf8_len(c),
{
    let u = c as u32;
    if u < 0x80 {
        1
    } else if u < 0x800 {
        2
    } else if u < 0x10000 {
        3
    } else {
        4
    }
}

/// The number of bytes of the UTF-8 encoding of the text, saturated at `cap + 1`
/// once it exceeds `cap`.
pub fn utf8_len_exceeds(v: &Vec<char>, cap: usize) -> (r: bool)
    requires
        cap < usize::MAX - 4,
    ensures
        r == (utf8_len(v@) > cap),
{
    let mut acc: usize = 0;
    let mut i: usize = 0;
    assert(v@.take(0) =~= Seq::<char>::empty());
    while i < v.len()
        invariant
            i <= v.len(),
            cap < usize::MAX - 4,
            acc == utf8_len(v@.take(i as int)),
            acc <= cap,
        decreases v.len() - i,
    {
        proof {
            lemma_utf8_len_take_step(v@, i as int);
        }
        acc = acc + utf8_width(v[i]);
        i += 1;
        if acc > cap {
            proof {
                if i < v.len() {
                    lemma_utf8_len_take_mono(v@, i as int, v.len() as int);
                }
                assert(v@.take(v.len() as int) =~= v@);
            }
            return true;
        }
    }
    assert(v@.take(v.len() as int) =~= v@);
    false
}

/// The number of leading characters whose encoding takes exactly `n` bytes, if any.
pub fn chars_in_bytes_of(v: &Vec<char>, n: usize) -> (r: Option<usize>)
    requires
        n < usize::MAX - 4,
    ensures
        match r {
            Some(k) => chars_in_bytes(v@, n as nat) == Some(k as int),
            None => chars_in_bytes(v@, n as nat) is None,
        },
{
    let mut acc: usize = 0;
    let mut i: usize = 0;
    assert(v@.take(0) =~= Seq::<char>::empty());
    while i < v.len() && acc < n
        invariant
            i <= v.len(),
            n < usize::MAX - 4,
            acc == utf8_len(v@.take(i as int)),
            acc <= n,
        decreases v.len() - i,
    {
        proof {
            lemma_utf8_len_take_step(v@, i as int);
        }
        acc = acc + utf8_width(v[i]);
        i += 1;
        if acc > n {
            proof {
                assert forall|k: int| 0 <= k <= v@.len() implies utf8_len(v@.take(k)) != n by {
                    if k < i - 1 {
                        lemma_utf8_len_take_mono(v@, k, i - 1);
                    } else if k > i - 1 && k != i {
                        lemma_utf8_len_take_mono(v@, i as int, k);
                    }
                }
            }
            return None;
        }
    }
    if acc == n {
        proof {
            assert forall|k: int| 0 <= k <= v@.len() && utf8_len(v@.take(k)) == n implies k == i by {
                if k < i {
                    lemma_utf8_len_take_mono(v@, k, i as int);
                } else if k > i {
                    lemma_utf8_len_take_mono(v@, i as int, k);
                }
            }
        }
        Some(i)
    } else {
        proof {
            assert(i == v.len());
            assert forall|k: int| 0 <= k <= v@.len() implies utf8_len(v@.take(k)) != n by {
                if k < i {
                    lemma_utf8_len_take_mono(v@, k, i as int);
                }
            }
        }
        None
    }
}

/// A line contains the pattern.
pub open spec fn containing(p: Seq<char>) -> spec_fn(Seq<char>) -> bool {
    |l: Seq<char>| contains(l, p)
}

/// The first line of the text that contains the pattern.
pub open spec fn first_line_with(s: Seq<char>, p: Seq<char>) -> Option<Seq<char>> {
    match first_match(lines(s), containing(p)) {
        Some(i) => Some(lines(s)[i]),
        None => None,
    }
}

/// The first line of the text that contains the pattern.
pub fn first_line_containing(v: &Vec<char>, p: &Vec<char>) -> (r: Option<Vec<char>>)
    ensures
        match r {
            Some(l) => first_line_with(v@, p@) == Some(l@),
            None => first_line_with(v@, p@) is None,
        },
{
    let ghost mut seen: Seq<Seq<char>> = Seq::empty();
    let mut pos: usize = 0;
    assert(v@.skip(0) =~= v@);
    assert(lines(v@) =~= seen + lines(v@.skip(0)));
    while pos < v.len()
        invariant
            pos <= v.len(),
            lines(v@) == seen + lines(v@.skip(pos as int)),
            forall|j: int| 0 <= j < seen.len() ==> !containing(p@)(#[trigger] seen[j]),
        decreases v.len() - pos,
    {
        let (line, next) = next_line(v, pos);
        let ghost rest = lines(v@.skip(next as int));
        assert(seen + lines(v@.skip(pos as int)) =~= seen.push(line@) + rest);
        if contains_chars(&line, p) {
            proof {
                assert((seen.push(line@) + rest)[seen.len() as int] == line@);
                assert forall|j: int| 0 <= j < seen.len() implies !containing(p@)(#[trigger] lines(v@)[j]) by {
                    assert(lines(v@)[j] == seen[j]);
                }
                lemma_first_match_at(lines(v@), containing(p@), seen.len() as int);
            }
            return Some(line);
        }
        proof {
            seen = seen.push(line@);
        }
        pos = next;
    }
    proof {
        assert(v@.skip(pos as int) =~= Seq::<char>::empty());
        assert(lines(v@) =~= seen);
        lemma_first_match_none(lines(v@), containing(p@));
    }
    None
}

} // verus!
