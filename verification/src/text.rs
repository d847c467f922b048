use vstd::prelude::*;
use vstd::string::*;

verus! {

broadcast use vstd::string::group_string_axioms;

// ---------------------------------------------------------------------------
// Specification helpers over character sequences
// ---------------------------------------------------------------------------

/// `c` is an ASCII upper-case letter.
pub open spec fn is_ascii_upper(c: char) -> bool {
    'A' <= c && c <= 'Z'
}

/// ASCII lower-casing of one character; other characters are unchanged.
pub open spec fn ascii_lower_char(c: char) -> char {
    if is_ascii_upper(c) {
        ((c as u32) + 32) as char
    } else {
        c
    }
}

/// ASCII lower-casing of a character sequence.
pub open spec fn ascii_lower(s: Seq<char>) -> Seq<char> {
    s.map_values(|c: char| ascii_lower_char(c))
}

/// `c` is an ASCII decimal digit.
pub open spec fn is_digit(c: char) -> bool {
    '0' <= c && c <= '9'
}

/// Unicode `White_Space`, the set that `char::is_whitespace` recognises.
pub open spec fn is_white(c: char) -> bool {
    ||| c == ' '
    ||| ('\t' <= c && c <= '\r')
    ||| c == '\u{85}'
    ||| c == '\u{a0}'
    ||| c == '\u{1680}'
    ||| ('\u{2000}' <= c && c <= '\u{200a}')
    ||| c == '\u{2028}'
    ||| c == '\u{2029}'
    ||| c == '\u{202f}'
    ||| c == '\u{205f}'
    ||| c == '\u{3000}'
}

/// `p` is a prefix of `s`.
pub open spec fn has_prefix(s: Seq<char>, p: Seq<char>) -> bool {
    p.len() <= s.len() && s.subrange(0, p.len() as int) == p
}

/// `p` is a suffix of `s`.
pub open spec fn has_suffix(s: Seq<char>, p: Seq<char>) -> bool {
    p.len() <= s.len() && s.subrange(s.len() - p.len(), s.len() as int) == p
}

/// `needle` occurs in `hay` starting at position `i`.
pub open spec fn occurs_at(hay: Seq<char>, needle: Seq<char>, i: int) -> bool {
    0 <= i && i + needle.len() <= hay.len() && hay.subrange(i, i + needle.len()) == needle
}

/// `needle` occurs somewhere in `hay` (the empty sequence occurs everywhere).
pub open spec fn contains_seq(hay: Seq<char>, needle: Seq<char>) -> bool {
    exists|i: int| occurs_at(hay, needle, i)
}

/// Number of leading white-space characters of `s`.
pub open spec fn leading_white(s: Seq<char>) -> nat
    decreases s.len(),
{
    if s.len() > 0 && is_white(s[0]) {
        1 + leading_white(s.drop_first())
    } else {
        0
    }
}

/// Number of trailing white-space characters of `s`.
pub open spec fn trailing_white(s: Seq<char>) -> nat
    decreases s.len(),
{
    if s.len() > 0 && is_white(s.last()) {
        1 + trailing_white(s.drop_last())
    } else {
        0
    }
}

/// `s` without leading white space.
pub open spec fn trim_start(s: Seq<char>) -> Seq<char> {
    s.skip(leading_white(s) as int)
}

/// `s` without trailing white space.
pub open spec fn trim_end(s: Seq<char>) -> Seq<char> {
    s.take(s.len() - trailing_white(s))
}

/// `s` without leading or trailing white space.
pub open spec fn trim(s: Seq<char>) -> Seq<char> {
    trim_end(trim_start(s))
}

/// Position of the first `c` in `s`, or `s.len()` when there is none.
pub open spec fn index_of_char(s: Seq<char>, c: char) -> nat
    decreases s.len(),
{
    if s.len() == 0 {
        0
    } else if s[0] == c {
        0
    } else {
        1 + index_of_char(s.drop_first(), c)
    }
}

/// A line without the carriage return that may end it.
pub open spec fn strip_cr(line: Seq<char>) -> Seq<char> {
    if line.len() > 0 && line.last() == '\r' {
        line.drop_last()
    } else {
        line
    }
}

/// The lines of `s` as `str::lines` yields them: split at `'\n'`, the
/// `'\r'` of a `"\r\n"` ending dropped, and no empty line after a final
/// newline (a last line without a newline keeps a final `'\r'`).
pub open spec fn lines(s: Seq<char>) -> Seq<Seq<char>>
    decreases s.len(),
{
    if s.len() == 0 {
        seq![]
    } else {
        let i = index_of_char(s, '\n');
        if i >= s.len() {
            seq![s]
        } else {
            seq![strip_cr(s.take(i as int))] + lines(s.skip(i as int + 1))
        }
    }
}

/// The decimal digit for `d < 10`.
pub open spec fn digit_char(d: nat) -> char {
    ((d + 48) as u32) as char
}

/// Decimal notation of a natural number, without leading zeros.
pub open spec fn decimal(n: nat) -> Seq<char>
    decreases n,
{
    if n < 10 {
        seq![digit_char(n)]
    } else {
        decimal(n / 10).push(digit_char(n % 10))
    }
}

/// The sequences of `parts` joined with `sep` between neighbours.
pub open spec fn join(parts: Seq<Seq<char>>, sep: Seq<char>) -> Seq<char>
    decreases parts.len(),
{
    if parts.len() == 0 {
        seq![]
    } else if parts.len() == 1 {
        parts[0]
    } else {
        join(parts.drop_last(), sep) + sep + parts.last()
    }
}


/// The first position at or after `i` at which `needle` occurs in `hay`.
pub open spec fn find_from(hay: Seq<char>, needle: Seq<char>, i: nat) -> Option<nat>
    decreases hay.len() + 1 - i,
{
    if i > hay.len() {
        None
    } else if occurs_at(hay, needle, i as int) {
        Some(i)
    } else {
        find_from(hay, needle, i + 1)
    }
}

/// The first position at which `needle` occurs in `hay` (`str::find`).
pub open spec fn find_first(hay: Seq<char>, needle: Seq<char>) -> Option<nat> {
    find_from(hay, needle, 0)
}


/// The pieces of `s` between occurrences of `c` (`str::split` with a
/// character pattern): always at least one piece.
pub open spec fn split_on(s: Seq<char>, c: char) -> Seq<Seq<char>>
    decreases s.len(),
{
    let i = index_of_char(s, c);
    if i >= s.len() {
        seq![s]
    } else {
        seq![s.take(i as int)] + split_on(s.skip(i as int + 1), c)
    }
}

/// The rest of the first piece of `pieces` that begins with `prefix`.
pub open spec fn first_with_prefix(pieces: Seq<Seq<char>>, prefix: Seq<char>) -> Option<Seq<char>>
    decreases pieces.len(),
{
    if pieces.len() == 0 {
        None
    } else if has_prefix(pieces[0], prefix) {
        Some(pieces[0].skip(prefix.len() as int))
    } else {
        first_with_prefix(pieces.drop_first(), prefix)
    }
}

/// `s` without `prefix`, when `s` begins with it (`str::strip_prefix`).
pub open spec fn strip_prefix(s: Seq<char>, prefix: Seq<char>) -> Option<Seq<char>> {
    if has_prefix(s, prefix) {
        Some(s.skip(prefix.len() as int))
    } else {
        None
    }
}

/// Every character of `s` is a decimal digit.
pub open spec fn all_digits(s: Seq<char>) -> bool {
    forall|i: int| 0 <= i < s.len() ==> is_digit(#[trigger] s[i])
}

/// Number of leading decimal digits of `s`.
pub open spec fn leading_digits(s: Seq<char>) -> nat
    decreases s.len(),
{
    if s.len() > 0 && is_digit(s[0]) {
        1 + leading_digits(s.drop_first())
    } else {
        0
    }
}

/// Number of trailing decimal digits of `s`.
pub open spec fn trailing_digits(s: Seq<char>) -> nat
    decreases s.len(),
{
    if s.len() > 0 && is_digit(s.last()) {
        1 + trailing_digits(s.drop_last())
    } else {
        0
    }
}

/// Strict lexicographic order of character sequences (the order of `String`).
pub open spec fn lex_lt(a: Seq<char>, b: Seq<char>) -> bool
    decreases a.len(),
{
    if a.len() == 0 {
        b.len() > 0
    } else if b.len() == 0 {
        false
    } else if a[0] != b[0] {
        a[0] < b[0]
    } else {
        lex_lt(a.drop_first(), b.drop_first())
    }
}

/// `s` is strictly increasing in lexicographic order.
pub open spec fn strictly_sorted(s: Seq<Seq<char>>) -> bool {
    forall|i: int, j: int| 0 <= i < j < s.len() ==> lex_lt(#[trigger] s[i], #[trigger] s[j])
}

/// No character sequence is below itself.
pub proof fn lemma_lex_irreflexive(a: Seq<char>)
    ensures
        !lex_lt(a, a),
    decreases a.len(),
{
    if a.len() > 0 {
        lemma_lex_irreflexive(a.drop_first());
    }
}

/// The lexicographic order is transitive.
pub proof fn lemma_lex_transitive(a: Seq<char>, b: Seq<char>, c: Seq<char>)
    requires
        lex_lt(a, b),
        lex_lt(b, c),
    ensures
        lex_lt(a, c),
    decreases a.len(),
{
    if a.len() > 0 && b.len() > 0 && c.len() > 0 && a[0] == b[0] && b[0] == c[0] {
        lemma_lex_transitive(a.drop_first(), b.drop_first(), c.drop_first());
    }
}

/// Two distinct character sequences are ordered one way or the other.
pub proof fn lemma_lex_total(a: Seq<char>, b: Seq<char>)
    requires
        a != b,
    ensures
        lex_lt(a, b) || lex_lt(b, a),
    decreases a.len(),
{
    if a.len() == 0 && b.len() == 0 {
        assert(a =~= b);
    }
    if a.len() > 0 && b.len() > 0 && a[0] == b[0] {
        if a.drop_first() == b.drop_first() {
            assert(a.drop_first().len() == b.drop_first().len());
            assert(a.len() == b.len());
            assert(a =~= b) by {
                assert forall|k: int| 0 <= k < a.len() implies a[k] == b[k] by {
                    if k > 0 {
                        assert(a[k] == a.drop_first()[k - 1]);
                        assert(b[k] == b.drop_first()[k - 1]);
                    }
                }
            }
        }
        lemma_lex_total(a.drop_first(), b.drop_first());
    }
}

/// The lexicographic order is asymmetric.
pub proof fn lemma_lex_asymmetric(a: Seq<char>, b: Seq<char>)
    requires
        lex_lt(a, b),
    ensures
        !lex_lt(b, a),
{
    if lex_lt(b, a) {
        lemma_lex_transitive(a, b, a);
        lemma_lex_irreflexive(a);
    }
}


/// The first piece of `split_on(s, c)` is the part before the first `c`.
pub proof fn lemma_split_first(s: Seq<char>, c: char)
    ensures
        split_on(s, c).len() >= 1,
        split_on(s, c)[0] == s.take(index_of_char(s, c) as int),
{
    lemma_index_of_char_bound(s, c);
    if index_of_char(s, c) >= s.len() {
        assert(s.take(s.len() as int) == s);
    }
}

/// `index_of_char` is at most the length.
pub proof fn lemma_index_of_char_bound(s: Seq<char>, c: char)
    ensures
        index_of_char(s, c) <= s.len(),
        index_of_char(s, c) < s.len() ==> s[index_of_char(s, c) as int] == c,
        forall|j: int| 0 <= j < index_of_char(s, c) ==> s[j] != c,
    decreases s.len(),
{
    if s.len() > 0 && s[0] != c {
        lemma_index_of_char_bound(s.drop_first(), c);
        assert forall|j: int| 0 <= j < index_of_char(s, c) implies s[j] != c by {
            if j > 0 {
                assert(s[j] == s.drop_first()[j - 1]);
            }
        }
    }
}

/// The last piece of `split_on(s, c)` is the part after the last `c`: if
/// no `c` occurs from `k` on and `k` is 0 or follows a `c`, it is `s.skip(k)`.
pub proof fn lemma_split_last(s: Seq<char>, c: char, k: int)
    requires
        0 <= k <= s.len(),
        forall|j: int| k <= j < s.len() ==> s[j] != c,
        k == 0 || s[k - 1] == c,
    ensures
        split_on(s, c).len() >= 1,
        split_on(s, c).last() == s.skip(k),
    decreases s.len(),
{
    lemma_index_of_char_bound(s, c);
    let i = index_of_char(s, c);
    if i >= s.len() {
        if k > 0 {
            assert(s[k - 1] == c);
        }
        assert(s.skip(0) == s);
    } else {
        assert(i < k) by {
            if i >= k {
                assert(s[i as int] != c);
            }
        }
        let rest = s.skip(i as int + 1);
        assert forall|j: int| k - i - 1 <= j < rest.len() implies rest[j] != c by {
            assert(rest[j] == s[j + i + 1]);
        }
        if k - i - 1 > 0 {
            assert(rest[k - i - 2] == s[k - 1]);
        }
        lemma_split_last(rest, c, k - i - 1);
        assert(rest.skip(k - i - 1) == s.skip(k));
    }
}

// ---------------------------------------------------------------------------
// Executable helpers
// ---------------------------------------------------------------------------

/// The characters of `s`, in order.
pub fn chars_of(s: &str) -> (v: Vec<char>)
    ensures
        v@ == s@,
{
    let mut v: Vec<char> = Vec::new();
    for c in it: s.chars()
        invariant
            v@ == it.seq().take(it.index() as int),
    {
        v.push(c);
    }
    v
}

/// Appends one character to `s` (`String::push`).
#[verifier::external_body]
pub(crate) fn push_char(s: &mut String, c: char)
    ensures
        final(s)@ == old(s)@.push(c),
{
    s.push(c);
}

/// A string holding exactly the characters of `v`.
pub fn string_of(v: &[char]) -> (s: String)
    ensures
        s@ == v@,
{
    let mut s = String::new();
    let mut i: usize = 0;
    while i < v.len()
        invariant
            i <= v.len(),
            s@ == v@.take(i as int),
        decreases v.len() - i,
    {
        push_char(&mut s, v[i]);
        i = i + 1;
        assert(v@.take(i as int) == v@.take(i - 1).push(v@[i - 1]));
    }
    assert(v@.take(v.len() as int) == v@);
    s
}

/// A new string with the characters of `s`.
pub fn owned(s: &str) -> (r: String)
    ensures
        r@ == s@,
{
    String::from_str(s)
}

/// Appends the characters of `v` to `s`.
pub fn push_chars(s: &mut String, v: &[char])
    ensures
        final(s)@ == old(s)@ + v@,
{
    let mut i: usize = 0;
    while i < v.len()
        invariant
            i <= v.len(),
            s@ == old(s)@ + v@.take(i as int),
        decreases v.len() - i,
    {
        push_char(s, v[i]);
        i = i + 1;
        assert(v@.take(i as int) == v@.take(i - 1).push(v@[i - 1]));
    }
    assert(v@.take(v.len() as int) == v@);
}

/// ASCII lower-casing of one character.
pub fn lower_char(c: char) -> (r: char)
    ensures
        r == ascii_lower_char(c),
{
    if c >= 'A' && c <= 'Z' {
        ((c as u8) + 32) as char
    } else {
        c
    }
}

/// ASCII lower-casing of a character sequence.
pub fn lower_chars(v: &[char]) -> (r: Vec<char>)
    ensures
        r@ == ascii_lower(v@),
{
    let mut r: Vec<char> = Vec::new();
    let mut i: usize = 0;
    while i < v.len()
        invariant
            i <= v.len(),
            r@ == ascii_lower(v@.take(i as int)),
        decreases v.len() - i,
    {
        r.push(lower_char(v[i]));
        i = i + 1;
        assert(ascii_lower(v@.take(i as int)) == ascii_lower(v@.take(i - 1)).push(ascii_lower_char(v@[i - 1])));
    }
    assert(v@.take(v.len() as int) == v@);
    r
}

/// Character sequences are equal.
pub fn chars_eq(a: &[char], b: &[char]) -> (r: bool)
    ensures
        r == (a@ == b@),
{
    if a.len() != b.len() {
        return false;
    }
    let mut i: usize = 0;
    while i < a.len()
        invariant
            a.len() == b.len(),
            i <= a.len(),
            forall|j: int| 0 <= j < i ==> a@[j] == b@[j],
        decreases a.len() - i,
    {
        if a[i] != b[i] {
            return false;
        }
        i = i + 1;
    }
    assert(a@ == b@);
    true
}

/// `needle` occurs in `hay` at position `i`.
pub fn matches_at(hay: &[char], needle: &[char], i: usize) -> (r: bool)
    ensures
        r == occurs_at(hay@, needle@, i as int),
{
    if i > hay.len() || needle.len() > hay.len() - i {
        return false;
    }
    let mut k: usize = 0;
    while k < needle.len()
        invariant
            i + needle.len() <= hay.len(),
            k <= needle.len(),
            forall|j: int| 0 <= j < k ==> hay@[i + j] == needle@[j],
        decreases needle.len() - k,
    {
        if hay[i + k] != needle[k] {
            assert(hay@.subrange(i as int, i + needle.len())[k as int] != needle@[k as int]);
            return false;
        }
        k = k + 1;
    }
    assert(hay@.subrange(i as int, i + needle.len()) == needle@);
    true
}

/// The first position at which `needle` occurs in `hay`.
pub fn find_chars(hay: &[char], needle: &[char]) -> (r: Option<usize>)
    ensures
        r matches Some(i) ==> occurs_at(hay@, needle@, i as int) && forall|j: int| 0 <= j < i ==> !occurs_at(hay@, needle@, j),
        r is None ==> !contains_seq(hay@, needle@),
{
    let mut i: usize = 0;
    loop
        invariant
            i <= hay.len(),
            forall|j: int| 0 <= j < i ==> !occurs_at(hay@, needle@, j),
        decreases hay.len() - i,
    {
        if matches_at(hay, needle, i) {
            return Some(i);
        }
        if i == hay.len() {
            assert forall|j: int| !occurs_at(hay@, needle@, j) by {
                if 0 <= j && j < i {
                }
            }
            return None;
        }
        i = i + 1;
    }
}


proof fn lemma_find_from(hay: Seq<char>, needle: Seq<char>, k: nat, i: nat)
    requires
        k <= i,
        forall|j: int| k <= j < i ==> !occurs_at(hay, needle, j),
        i <= hay.len() + 1,
        i <= hay.len() ==> occurs_at(hay, needle, i as int),
    ensures
        find_from(hay, needle, k) == (if i <= hay.len() { Some(i) } else { None::<nat> }),
    decreases i - k,
{
    if k < i {
        lemma_find_from(hay, needle, k + 1, i);
    }
}

/// The first position at which `needle` occurs in `hay` (`str::find`).
pub fn find_in(hay: &[char], needle: &[char]) -> (r: Option<usize>)
    ensures
        r matches Some(i) ==> find_first(hay@, needle@) == Some(i as nat),
        r is None ==> find_first(hay@, needle@) is None,
        r matches Some(i) ==> occurs_at(hay@, needle@, i as int),
{
    let r = find_chars(hay, needle);
    proof {
        match r {
            Some(i) => lemma_find_from(hay@, needle@, 0, i as nat),
            None => lemma_find_from(hay@, needle@, 0, (hay.len() + 1) as nat),
        }
    }
    r
}

/// Strict lexicographic comparison.
pub fn chars_lt(a: &[char], b: &[char]) -> (r: bool)
    ensures
        r == lex_lt(a@, b@),
{
    let mut i: usize = 0;
    assert(a@.skip(0) == a@);
    assert(b@.skip(0) == b@);
    while i < a.len() && i < b.len() && a[i] == b[i]
        invariant
            i <= a.len(),
            i <= b.len(),
            lex_lt(a@, b@) == lex_lt(a@.skip(i as int), b@.skip(i as int)),
        decreases a.len() - i,
    {
        proof {
            let sa = a@.skip(i as int);
            let sb = b@.skip(i as int);
            assert(sa.drop_first() == a@.skip(i + 1));
            assert(sb.drop_first() == b@.skip(i + 1));
        }
        i = i + 1;
    }
    let sa = Ghost(a@.skip(i as int));
    let sb = Ghost(b@.skip(i as int));
    if i == a.len() {
        assert(sa@.len() == 0);
        i < b.len()
    } else if i == b.len() {
        assert(sb@.len() == 0);
        false
    } else {
        assert(sa@[0] == a@[i as int]);
        assert(sb@[0] == b@[i as int]);
        a[i] < b[i]
    }
}

/// Strict lexicographic comparison of strings.
pub fn str_lt(a: &str, b: &str) -> (r: bool)
    ensures
        r == lex_lt(a@, b@),
{
    let ac = chars_of(a);
    let bc = chars_of(b);
    chars_lt(&ac, &bc)
}

/// String equality.
pub fn str_eq(a: &str, b: &str) -> (r: bool)
    ensures
        r == (a@ == b@),
{
    let ac = chars_of(a);
    let bc = chars_of(b);
    chars_eq(&ac, &bc)
}

/// Inserts `s` into the strictly increasing list `v`, unless it is present.
pub fn insert_sorted_unique(v: &mut Vec<String>, s: String)
    requires
        strictly_sorted(old(v)@.map_values(|x: String| x@)),
    ensures
        strictly_sorted(final(v)@.map_values(|x: String| x@)),
        final(v)@.map_values(|x: String| x@).to_set() == old(v)@.map_values(|x: String| x@).to_set().insert(s@),
{
    let ghost ov = v@.map_values(|x: String| x@);
    let mut i: usize = 0;
    while i < v.len() && str_lt(v[i].as_str(), s.as_str())
        invariant
            i <= v.len(),
            v@.map_values(|x: String| x@) == ov,
            forall|j: int| 0 <= j < i ==> lex_lt(#[trigger] ov[j], s@),
        decreases v.len() - i,
    {
        i = i + 1;
    }
    if i < v.len() && str_eq(v[i].as_str(), s.as_str()) {
        proof {
            assert(ov.to_set().contains(s@)) by {
                assert(ov[i as int] == s@);
            }
            assert(ov.to_set().insert(s@) == ov.to_set());
        }
        return;
    }
    proof {
        if i < v.len() {
            lemma_lex_total(ov[i as int], s@);
            assert(lex_lt(s@, ov[i as int]));
        }
    }
    v.insert(i, s);
    proof {
        let nv = v@.map_values(|x: String| x@);
        assert(nv == ov.insert(i as int, s@));
        assert forall|a: int, b: int| 0 <= a < b < nv.len() implies lex_lt(#[trigger] nv[a], #[trigger] nv[b]) by {
            if b < i {
            } else if a < i && b == i {
            } else if a < i && b > i {
                assert(nv[b] == ov[b - 1]);
                if b - 1 > i {
                    lemma_lex_transitive(nv[a], s@, ov[i as int]);
                    lemma_lex_transitive(nv[a], ov[i as int], ov[b - 1]);
                } else {
                    lemma_lex_transitive(nv[a], s@, ov[i as int]);
                }
            } else if a == i {
                assert(nv[b] == ov[b - 1]);
                if b - 1 > i {
                    lemma_lex_transitive(s@, ov[i as int], ov[b - 1]);
                }
            } else {
                assert(nv[a] == ov[a - 1]);
                assert(nv[b] == ov[b - 1]);
            }
        }
        assert(nv.to_set() == ov.to_set().insert(s@)) by {
            assert forall|x: Seq<char>| nv.to_set().contains(x) <==> ov.to_set().insert(s@).contains(x) by {
                if nv.to_set().contains(x) {
                    let k = choose|k: int| 0 <= k < nv.len() && nv[k] == x;
                    if k < i {
                        assert(ov[k] == x);
                    } else if k > i {
                        assert(ov[k - 1] == x);
                    }
                }
                if ov.to_set().contains(x) {
                    let k = choose|k: int| 0 <= k < ov.len() && ov[k] == x;
                    if k < i {
                        assert(nv[k] == x);
                    } else {
                        assert(nv[k + 1] == x);
                    }
                }
                if x == s@ {
                    assert(nv[i as int] == x);
                }
            }
        }
    }
}


/// The pieces of `s` between occurrences of `c` (`str::split`).
pub fn split_on_char(s: &[char], c: char) -> (r: Vec<Vec<char>>)
    ensures
        r@.len() == split_on(s@, c).len(),
        forall|k: int| 0 <= k < r@.len() ==> #[trigger] r@[k]@ == split_on(s@, c)[k],
{
    let mut r: Vec<Vec<char>> = Vec::new();
    let mut rest: Vec<char> = slice_from(s, 0);
    assert(s@.skip(0) == s@);
    let ghost done: Seq<Seq<char>> = seq![];
    loop
        invariant
            done.len() == r@.len(),
            forall|k: int| 0 <= k < r@.len() ==> #[trigger] r@[k]@ == done[k],
            done + split_on(rest@, c) == split_on(s@, c),
        decreases rest.len(),
    {
        let i = index_of(&rest, c);
        let ghost old_rest = rest@;
        if i >= rest.len() {
            proof {
                assert(split_on(old_rest, c) == seq![old_rest]);
                done = done.push(rest@);
            }
            r.push(rest);
            return r;
        }
        let head = slice_range(&rest, 0, i);
        let tail = slice_from(&rest, i + 1);
        proof {
            assert(split_on(old_rest, c) == seq![old_rest.take(i as int)] + split_on(old_rest.skip(i + 1), c));
            let od = done;
            done = done.push(head@);
            assert(done + split_on(tail@, c) == od + split_on(old_rest, c));
        }
        r.push(head);
        rest = tail;
    }
}

/// `s` without `prefix`, when `s` begins with it.
pub fn strip_prefix_chars(s: &[char], prefix: &[char]) -> (r: Option<Vec<char>>)
    ensures
        r matches Some(v) ==> strip_prefix(s@, prefix@) == Some(v@),
        r is None ==> strip_prefix(s@, prefix@) is None,
{
    if starts_with_chars(s, prefix) {
        Some(slice_from(s, prefix.len()))
    } else {
        None
    }
}

/// The rest of the first piece that begins with `prefix`.
pub fn first_piece_with_prefix(pieces: &Vec<Vec<char>>, prefix: &[char]) -> (r: Option<Vec<char>>)
    ensures
        r matches Some(v) ==> first_with_prefix(pieces@.map_values(|p: Vec<char>| p@), prefix@) == Some(v@),
        r is None ==> first_with_prefix(pieces@.map_values(|p: Vec<char>| p@), prefix@) is None,
{
    let ghost views = pieces@.map_values(|p: Vec<char>| p@);
    let mut i: usize = 0;
    assert(views.skip(0) == views);
    while i < pieces.len()
        invariant
            i <= pieces.len(),
            views == pieces@.map_values(|p: Vec<char>| p@),
            first_with_prefix(views, prefix@) == first_with_prefix(views.skip(i as int), prefix@),
        decreases pieces.len() - i,
    {
        proof {
            assert(views.skip(i as int)[0] == pieces@[i as int]@);
            assert(views.skip(i as int).drop_first() == views.skip(i + 1));
        }
        if starts_with_chars(&pieces[i], prefix) {
            return Some(slice_from(&pieces[i], prefix.len()));
        }
        i = i + 1;
    }
    proof {
        assert(views.skip(i as int).len() == 0);
    }
    None
}

proof fn lemma_leading_digits(s: Seq<char>, i: int)
    requires
        0 <= i <= s.len(),
        forall|j: int| 0 <= j < i ==> is_digit(s[j]),
        i == s.len() || !is_digit(s[i]),
    ensures
        leading_digits(s) == i,
    decreases i,
{
    if i > 0 {
        lemma_leading_digits(s.drop_first(), i - 1);
    }
}

proof fn lemma_trailing_digits(s: Seq<char>, i: int)
    requires
        0 <= i <= s.len(),
        forall|j: int| s.len() - i <= j < s.len() ==> is_digit(s[j]),
        i == s.len() || !is_digit(s[s.len() - i - 1]),
    ensures
        trailing_digits(s) == i,
    decreases i,
{
    if i > 0 {
        lemma_trailing_digits(s.drop_last(), i - 1);
    }
}

/// `c` is an ASCII decimal digit.
pub fn is_digit_char(c: char) -> (r: bool)
    ensures
        r == is_digit(c),
{
    '0' <= c && c <= '9'
}

/// Number of leading decimal digits.
pub fn count_leading_digits(s: &[char]) -> (n: usize)
    ensures
        n == leading_digits(s@),
        n <= s.len(),
{
    let mut i: usize = 0;
    while i < s.len() && is_digit_char(s[i])
        invariant
            i <= s.len(),
            forall|j: int| 0 <= j < i ==> is_digit(s@[j]),
        decreases s.len() - i,
    {
        i = i + 1;
    }
    proof {
        lemma_leading_digits(s@, i as int);
    }
    i
}

/// Number of trailing decimal digits.
pub fn count_trailing_digits(s: &[char]) -> (n: usize)
    ensures
        n == trailing_digits(s@),
        n <= s.len(),
{
    let mut i: usize = 0;
    while i < s.len() && is_digit_char(s[s.len() - 1 - i])
        invariant
            i <= s.len(),
            forall|j: int| s.len() - i <= j < s.len() ==> is_digit(s@[j]),
        decreases s.len() - i,
    {
        i = i + 1;
    }
    proof {
        lemma_trailing_digits(s@, i as int);
    }
    i
}


/// The position just after the last `c` in `s`, or 0 when there is none.
pub fn after_last(s: &[char], c: char) -> (k: usize)
    ensures
        k <= s.len(),
        forall|j: int| k <= j < s.len() ==> s@[j] != c,
        k == 0 || s@[k - 1] == c,
        split_on(s@, c).last() == s@.skip(k as int),
{
    let mut k: usize = s.len();
    while k > 0 && s[k - 1] != c
        invariant
            k <= s.len(),
            forall|j: int| k <= j < s.len() ==> s@[j] != c,
        decreases k,
    {
        k = k - 1;
    }
    proof {
        lemma_split_last(s@, c, k as int);
    }
    k
}

/// The part of `s` before the first `c` (the first piece of `split_on`).
pub fn before_first(s: &[char], c: char) -> (r: Vec<char>)
    ensures
        r@ == split_on(s@, c)[0],
{
    let i = index_of(s, c);
    proof {
        lemma_split_first(s@, c);
    }
    slice_range(s, 0, i)
}

/// `needle` occurs in `hay`.
pub fn contains_chars(hay: &[char], needle: &[char]) -> (r: bool)
    ensures
        r == contains_seq(hay@, needle@),
{
    find_chars(hay, needle).is_some()
}

/// `p` is a prefix of `s`.
pub fn starts_with_chars(s: &[char], p: &[char]) -> (r: bool)
    ensures
        r == has_prefix(s@, p@),
{
    let r = matches_at(s, p, 0);
    assert(r == has_prefix(s@, p@));
    r
}

/// `p` is a suffix of `s`.
pub fn ends_with_chars(s: &[char], p: &[char]) -> (r: bool)
    ensures
        r == has_suffix(s@, p@),
{
    if p.len() > s.len() {
        return false;
    }
    matches_at(s, p, s.len() - p.len())
}

/// `c` is white space in the sense of `char::is_whitespace`.
pub fn is_white_char(c: char) -> (r: bool)
    ensures
        r == is_white(c),
{
    c == ' ' || ('\t' <= c && c <= '\r') || c == '\u{85}' || c == '\u{a0}' || c == '\u{1680}'
        || ('\u{2000}' <= c && c <= '\u{200a}') || c == '\u{2028}' || c == '\u{2029}'
        || c == '\u{202f}' || c == '\u{205f}' || c == '\u{3000}'
}

proof fn lemma_leading_white(s: Seq<char>, i: int)
    requires
        0 <= i <= s.len(),
        forall|j: int| 0 <= j < i ==> is_white(s[j]),
        i == s.len() || !is_white(s[i]),
    ensures
        leading_white(s) == i,
    decreases i,
{
    if i > 0 {
        lemma_leading_white(s.drop_first(), i - 1);
    }
}

proof fn lemma_trailing_white(s: Seq<char>, i: int)
    requires
        0 <= i <= s.len(),
        forall|j: int| s.len() - i <= j < s.len() ==> is_white(s[j]),
        i == s.len() || !is_white(s[s.len() - i - 1]),
    ensures
        trailing_white(s) == i,
    decreases i,
{
    if i > 0 {
        lemma_trailing_white(s.drop_last(), i - 1);
    }
}

/// Number of leading white-space characters.
pub fn count_leading_white(s: &[char]) -> (n: usize)
    ensures
        n == leading_white(s@),
        n <= s.len(),
{
    let mut i: usize = 0;
    while i < s.len() && is_white_char(s[i])
        invariant
            i <= s.len(),
            forall|j: int| 0 <= j < i ==> is_white(s@[j]),
        decreases s.len() - i,
    {
        i = i + 1;
    }
    proof {
        lemma_leading_white(s@, i as int);
    }
    i
}

/// Number of trailing white-space characters.
pub fn count_trailing_white(s: &[char]) -> (n: usize)
    ensures
        n == trailing_white(s@),
        n <= s.len(),
{
    let mut i: usize = 0;
    while i < s.len() && is_white_char(s[s.len() - 1 - i])
        invariant
            i <= s.len(),
            forall|j: int| s.len() - i <= j < s.len() ==> is_white(s@[j]),
        decreases s.len() - i,
    {
        i = i + 1;
    }
    proof {
        lemma_trailing_white(s@, i as int);
    }
    i
}

/// `s` without leading and trailing white space.
pub fn trim_chars(s: &[char]) -> (r: Vec<char>)
    ensures
        r@ == trim(s@),
{
    let a = count_leading_white(s);
    let tail = slice_from(s, a);
    let b = count_trailing_white(&tail);
    slice_range(&tail, 0, tail.len() - b)
}

/// `s` without leading white space.
pub fn trim_start_chars(s: &[char]) -> (r: Vec<char>)
    ensures
        r@ == trim_start(s@),
{
    let a = count_leading_white(s);
    slice_from(s, a)
}

/// `s` without trailing white space.
pub fn trim_end_chars(s: &[char]) -> (r: Vec<char>)
    ensures
        r@ == trim_end(s@),
{
    let b = count_trailing_white(s);
    slice_range(s, 0, s.len() - b)
}

/// The characters of `s` from position `from` on.
pub fn slice_from(s: &[char], from: usize) -> (r: Vec<char>)
    requires
        from <= s.len(),
    ensures
        r@ == s@.skip(from as int),
{
    slice_range(s, from, s.len())
}

/// The characters of `s` in `from..to`.
pub fn slice_range(s: &[char], from: usize, to: usize) -> (r: Vec<char>)
    requires
        from <= to <= s.len(),
    ensures
        r@ == s@.subrange(from as int, to as int),
{
    let mut r: Vec<char> = Vec::new();
    let mut i: usize = from;
    while i < to
        invariant
            from <= i <= to <= s.len(),
            r@ == s@.subrange(from as int, i as int),
        decreases to - i,
    {
        r.push(s[i]);
        i = i + 1;
        assert(s@.subrange(from as int, i as int) == s@.subrange(from as int, i - 1).push(s@[i - 1]));
    }
    r
}

/// Position of the first `c` in `s`, or `s.len()`.
pub fn index_of(s: &[char], c: char) -> (n: usize)
    ensures
        n == index_of_char(s@, c),
        n <= s.len(),
        n < s.len() ==> s@[n as int] == c,
        forall|j: int| 0 <= j < n ==> s@[j] != c,
{
    let mut i: usize = 0;
    while i < s.len() && s[i] != c
        invariant
            i <= s.len(),
            forall|j: int| 0 <= j < i ==> s@[j] != c,
        decreases s.len() - i,
    {
        i = i + 1;
    }
    proof {
        lemma_index_of_char(s@, c, i as int);
    }
    i
}

proof fn lemma_index_of_char(s: Seq<char>, c: char, i: int)
    requires
        0 <= i <= s.len(),
        forall|j: int| 0 <= j < i ==> s[j] != c,
        i == s.len() || s[i] == c,
    ensures
        index_of_char(s, c) == i,
    decreases i,
{
    if i > 0 {
        lemma_index_of_char(s.drop_first(), c, i - 1);
    }
}

/// The line without a final carriage return.
pub fn strip_cr_chars(line: &[char]) -> (r: Vec<char>)
    ensures
        r@ == strip_cr(line@),
{
    if line.len() > 0 && line[line.len() - 1] == '\r' {
        slice_range(line, 0, line.len() - 1)
    } else {
        slice_range(line, 0, line.len())
    }
}

/// The lines of `s`, as `str::lines` yields them.
pub fn split_lines(s: &[char]) -> (r: Vec<Vec<char>>)
    ensures
        r@.len() == lines(s@).len(),
        forall|k: int| 0 <= k < r@.len() ==> #[trigger] r@[k]@ == lines(s@)[k],
{
    let mut r: Vec<Vec<char>> = Vec::new();
    let mut rest: Vec<char> = slice_from(s, 0);
    assert(s@.skip(0) == s@);
    let ghost done: Seq<Seq<char>> = seq![];
    while rest.len() > 0
        invariant
            done.len() == r@.len(),
            forall|k: int| 0 <= k < r@.len() ==> #[trigger] r@[k]@ == done[k],
            done + lines(rest@) == lines(s@),
        decreases rest.len(),
    {
        let i = index_of(&rest, '\n');
        let ghost old_rest = rest@;
        if i >= rest.len() {
            let line = slice_from(&rest, 0);
            proof {
                assert(old_rest.skip(0) == old_rest);
                assert(lines(old_rest) == seq![old_rest]);
                done = done.push(line@);
            }
            r.push(line);
            rest = Vec::new();
            assert(lines(rest@) == Seq::<Seq<char>>::empty());
            assert(done + lines(rest@) == done);
        } else {
            let head = slice_range(&rest, 0, i);
            let line = strip_cr_chars(&head);
            let tail = slice_from(&rest, i + 1);
            proof {
                assert(lines(old_rest) == seq![strip_cr(old_rest.take(i as int))] + lines(old_rest.skip(i + 1)));
                assert(head@ == old_rest.take(i as int));
                let od = done;
                done = done.push(line@);
                assert(done + lines(tail@) == od + lines(old_rest));
            }
            r.push(line);
            rest = tail;
        }
    }
    assert(lines(rest@) == Seq::<Seq<char>>::empty());
    assert(done + lines(rest@) == done);
    r
}

/// Appends the decimal notation of `n` to `s`.
pub fn push_decimal(s: &mut String, n: u64)
    ensures
        final(s)@ == old(s)@ + decimal(n as nat),
    decreases n,
{
    if n < 10 {
        push_char(s, ((n as u8) + 48) as char);
        assert(old(s)@.push(digit_char(n as nat)) == old(s)@ + decimal(n as nat));
    } else {
        push_decimal(s, n / 10);
        push_char(s, (((n % 10) as u8) + 48) as char);
        assert(decimal(n as nat) == decimal((n / 10) as nat).push(digit_char((n % 10) as nat)));
    }
}

/// The decimal notation of `n`.
pub fn decimal_string(n: u64) -> (s: String)
    ensures
        s@ == decimal(n as nat),
{
    let mut s = String::new();
    push_decimal(&mut s, n);
    s
}

/// Appends `t` to `s`.
pub fn push_str(s: &mut String, t: &str)
    ensures
        final(s)@ == old(s)@ + t@,
{
    s.append(t);
}

/// Joins `parts` with `sep` between neighbours.
pub fn join_strings(parts: &Vec<String>, sep: &str) -> (r: String)
    ensures
        r@ == join(parts@.map_values(|p: String| p@), sep@),
{
    let ghost views = parts@.map_values(|p: String| p@);
    let mut r = String::new();
    let mut i: usize = 0;
    while i < parts.len()
        invariant
            i <= parts.len(),
            views == parts@.map_values(|p: String| p@),
            r@ == join(views.take(i as int), sep@),
        decreases parts.len() - i,
    {
        if i > 0 {
            r.append(sep);
        }
        r.append(parts[i].as_str());
        i = i + 1;
        proof {
            assert(views.take(i as int).drop_last() == views.take(i - 1));
            assert(views.take(i as int).last() == parts@[i - 1]@);
            if i == 1 {
                assert(views.take(0) == Seq::<Seq<char>>::empty());
            }
        }
    }
    assert(views.take(parts.len() as int) == views);
    r
}


// ---------------------------------------------------------------------------
// Words and separators
// ---------------------------------------------------------------------------

/// Number of leading characters of `s` that are not white space.
pub open spec fn word_len(s: Seq<char>) -> nat
    decreases s.len(),
{
    if s.len() > 0 && !is_white(s[0]) {
        1 + word_len(s.drop_first())
    } else {
        0
    }
}

/// `word_len` is at most the length.
pub proof fn lemma_word_len(s: Seq<char>)
    ensures
        word_len(s) <= s.len(),
        forall|j: int| 0 <= j < word_len(s) ==> !is_white(#[trigger] s[j]),
        word_len(s) < s.len() ==> is_white(s[word_len(s) as int]),
    decreases s.len(),
{
    if s.len() > 0 && !is_white(s[0]) {
        lemma_word_len(s.drop_first());
        assert forall|j: int| 0 <= j < word_len(s) implies !is_white(#[trigger] s[j]) by {
            if j > 0 {
                assert(s[j] == s.drop_first()[j - 1]);
            }
        }
        if word_len(s) < s.len() {
            assert(s[word_len(s) as int] == s.drop_first()[word_len(s) - 1]);
        }
    }
}

/// The words of `s`: the maximal runs of characters that are not white
/// space, in order (`str::split_whitespace`).
pub open spec fn words(s: Seq<char>) -> Seq<Seq<char>>
    decreases s.len(),
{
    if s.len() == 0 {
        seq![]
    } else if is_white(s[0]) {
        words(s.drop_first())
    } else {
        proof {
            lemma_word_len(s);
        }
        seq![s.take(word_len(s) as int)] + words(s.skip(word_len(s) as int))
    }
}

proof fn lemma_word_len_exact(s: Seq<char>, i: int)
    requires
        0 <= i <= s.len(),
        forall|j: int| 0 <= j < i ==> !is_white(s[j]),
        i == s.len() || is_white(s[i]),
    ensures
        word_len(s) == i,
    decreases i,
{
    if i > 0 {
        lemma_word_len_exact(s.drop_first(), i - 1);
    }
}

/// The words of `s`, as `str::split_whitespace` yields them.
pub fn split_words(s: &[char]) -> (r: Vec<Vec<char>>)
    ensures
        r@.len() == words(s@).len(),
        forall|k: int| 0 <= k < r@.len() ==> #[trigger] r@[k]@ == words(s@)[k],
{
    let mut r: Vec<Vec<char>> = Vec::new();
    let mut i: usize = 0;
    let ghost done: Seq<Seq<char>> = seq![];
    assert(s@.skip(0) == s@);
    while i < s.len()
        invariant
            i <= s.len(),
            done.len() == r@.len(),
            forall|k: int| 0 <= k < r@.len() ==> #[trigger] r@[k]@ == done[k],
            done + words(s@.skip(i as int)) == words(s@),
        decreases s.len() - i,
    {
        let ghost rest = s@.skip(i as int);
        if is_white_char(s[i]) {
            assert(rest.drop_first() == s@.skip(i + 1));
            i = i + 1;
        } else {
            let mut j: usize = i;
            while j < s.len() && !is_white_char(s[j])
                invariant
                    i <= j <= s.len(),
                    forall|m: int| i <= m < j ==> !is_white(s@[m]),
                decreases s.len() - j,
            {
                j = j + 1;
            }
            proof {
                lemma_word_len_exact(rest, j - i);
                assert(rest.skip(j - i) == s@.skip(j as int));
                assert(rest.take(j - i) == s@.subrange(i as int, j as int));
                let od = done;
                done = done.push(s@.subrange(i as int, j as int));
                assert(done + words(s@.skip(j as int)) == od + words(rest));
            }
            r.push(slice_range(s, i, j));
            i = j;
        }
    }
    proof {
        assert(s@.skip(i as int).len() == 0);
        assert(done + words(s@.skip(i as int)) == done);
    }
    r
}

/// A position found by `find_from` is an occurrence at or after the start.
pub proof fn lemma_find_from_occurs(hay: Seq<char>, needle: Seq<char>, k: nat)
    ensures
        find_from(hay, needle, k) matches Some(i) ==> k <= i && occurs_at(hay, needle, i as int),
    decreases hay.len() + 1 - k,
{
    if k <= hay.len() && !occurs_at(hay, needle, k as int) {
        lemma_find_from_occurs(hay, needle, k + 1);
    }
}

/// The pieces of `s` between occurrences of `sep` (`str::split` with a
/// string pattern), for a non-empty `sep`.
pub open spec fn split_seq(s: Seq<char>, sep: Seq<char>) -> Seq<Seq<char>>
    decreases s.len(),
{
    if sep.len() == 0 {
        seq![s]
    } else {
        match find_first(s, sep) {
            None => seq![s],
            Some(i) => {
                proof {
                    lemma_find_from_occurs(s, sep, 0);
                }
                seq![s.take(i as int)] + split_seq(s.skip(i + sep.len() as int), sep)
            },
        }
    }
}

/// The pieces of `s` between occurrences of `sep`.
pub fn split_on_chars(s: &[char], sep: &[char]) -> (r: Vec<Vec<char>>)
    requires
        sep.len() > 0,
    ensures
        r@.len() == split_seq(s@, sep@).len(),
        forall|k: int| 0 <= k < r@.len() ==> #[trigger] r@[k]@ == split_seq(s@, sep@)[k],
{
    let mut r: Vec<Vec<char>> = Vec::new();
    let mut rest: Vec<char> = slice_from(s, 0);
    assert(s@.skip(0) == s@);
    let ghost done: Seq<Seq<char>> = seq![];
    loop
        invariant
            sep.len() > 0,
            done.len() == r@.len(),
            forall|k: int| 0 <= k < r@.len() ==> #[trigger] r@[k]@ == done[k],
            done + split_seq(rest@, sep@) == split_seq(s@, sep@),
        decreases rest.len(),
    {
        match find_in(&rest, sep) {
            None => {
                proof {
                    let od = done;
                    done = done.push(rest@);
                    assert(done == od + split_seq(rest@, sep@));
                }
                r.push(rest);
                return r;
            },
            Some(i) => {
                let rl = rest.len();
                let sl = sep.len();
                assert(i + sl <= rl);
                let head = slice_range(&rest, 0, i);
                let tail = slice_from(&rest, i + sl);
                proof {
                    let od = done;
                    done = done.push(head@);
                    assert(head@ == rest@.take(i as int));
                    assert(done + split_seq(tail@, sep@) == od + split_seq(rest@, sep@));
                }
                r.push(head);
                rest = tail;
            },
        }
    }
}

/// The value of a string of decimal digits.
pub open spec fn digits_value(s: Seq<char>) -> nat
    decreases s.len(),
{
    if s.len() == 0 {
        0
    } else {
        digits_value(s.drop_last()) * 10 + ((s.last() as int) - ('0' as int)) as nat
    }
}

/// Once a digit string's prefix is too large, so is the whole.
pub proof fn lemma_digits_value_grows(s: Seq<char>, k: int)
    requires
        0 <= k <= s.len(),
        all_digits(s.take(k)),
    ensures
        all_digits(s) ==> digits_value(s) >= digits_value(s.take(k)),
    decreases s.len() - k,
{
    if k < s.len() && all_digits(s) {
        assert(all_digits(s.take(k + 1)));
        lemma_digits_value_grows(s, k + 1);
        assert(s.take(k + 1).drop_last() == s.take(k));
    } else if k == s.len() {
        assert(s.take(k) == s);
    }
}

/// What `str::parse::<u64>` accepts: an optional `+`, then one or more
/// decimal digits whose value fits in a `u64`.
pub open spec fn parse_u64_spec(s: Seq<char>) -> Option<u64> {
    let digits = if s.len() > 0 && s[0] == '+' { s.skip(1) } else { s };
    if digits.len() > 0 && all_digits(digits) && digits_value(digits) <= u64::MAX {
        Some(digits_value(digits) as u64)
    } else {
        None
    }
}

/// The unsigned number a text holds, as `str::parse::<u64>` reads it.
pub fn parse_u64(text: &str) -> (r: Option<u64>)
    ensures
        r == parse_u64_spec(text@),
{
    let all = chars_of(text);
    let cs = if all.len() > 0 && all[0] == '+' { slice_from(&all, 1) } else { slice_from(&all, 0) };
    proof {
        assert(all@.skip(0) == all@);
    }
    let ghost digits = if text@.len() > 0 && text@[0] == '+' { text@.skip(1) } else { text@ };
    assert(cs@ == digits);
    if cs.len() == 0 {
        return None;
    }
    let mut v: u64 = 0;
    let mut i: usize = 0;
    while i < cs.len()
        invariant
            i <= cs@.len(),
            cs@ == digits,
            digits == (if text@.len() > 0 && text@[0] == '+' { text@.skip(1) } else { text@ }),
            cs@.len() > 0,
            all_digits(cs@.take(i as int)),
            v == digits_value(cs@.take(i as int)),
        decreases cs.len() - i,
    {
        let c = cs[i];
        proof {
            assert(cs@.take(i + 1).drop_last() == cs@.take(i as int));
            assert(cs@.take(i + 1).last() == c);
        }
        if !('0' <= c && c <= '9') {
            proof {
                assert(!all_digits(cs@)) by {
                    assert(cs@[i as int] == c);
                }
            }
            return None;
        }
        let d: u64 = if c == '0' { 0 } else if c == '1' { 1 } else if c == '2' { 2 } else if c == '3' { 3 } else if c == '4' { 4 }
            else if c == '5' { 5 } else if c == '6' { 6 } else if c == '7' { 7 } else if c == '8' { 8 } else { 9 };
        assert(d == (c as int) - ('0' as int));
        if v > (u64::MAX - d) / 10 {
            proof {
                assert(all_digits(cs@.take(i + 1)));
                assert(v * 10 + d > u64::MAX) by (nonlinear_arith)
                    requires
                        v > (u64::MAX - d) / 10,
                        d <= 9,
                ;
                lemma_digits_value_grows(cs@, (i + 1) as int);
            }
            return None;
        }
        assert(v * 10 + d <= u64::MAX) by (nonlinear_arith)
            requires
                v <= (u64::MAX - d) / 10,
                d <= 9,
        ;
        v = v * 10 + d;
        i = i + 1;
    }
    proof {
        assert(cs@.take(cs@.len() as int) == cs@);
    }
    Some(v)
}

} // verus!
