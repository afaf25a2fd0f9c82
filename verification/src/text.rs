//! Character-level string helpers with specifications over `Seq<char>`.

use vstd::prelude::*;
use vstd::string::*;

verus! {

/// Unicode `White_Space`, as `char::is_whitespace` defines it.
pub open spec fn is_ws(c: char) -> bool {
    ||| ('\u{9}' <= c && c <= '\u{d}')
    ||| c == ' '
    ||| c == '\u{85}'
    ||| c == '\u{a0}'
    ||| c == '\u{1680}'
    ||| ('\u{2000}' <= c && c <= '\u{200a}')
    ||| c == '\u{2028}'
    ||| c == '\u{2029}'
    ||| c == '\u{202f}'
    ||| c == '\u{205f}'
    ||| c == '\u{3000}'
}

/// `s` without its leading white space.
pub open spec fn trim_front(s: Seq<char>) -> Seq<char>
    decreases s.len(),
{
    if s.len() > 0 && is_ws(s[0]) {
        trim_front(s.drop_first())
    } else {
        s
    }
}

/// `s` without its trailing white space.
pub open spec fn trim_back(s: Seq<char>) -> Seq<char>
    decreases s.len(),
{
    if s.len() > 0 && is_ws(s.last()) {
        trim_back(s.drop_last())
    } else {
        s
    }
}

/// What `str::trim` gives back.
pub open spec fn trimmed(s: Seq<char>) -> Seq<char> {
    trim_back(trim_front(s))
}

/// Every character of `s` is white space.
pub open spec fn all_ws(s: Seq<char>) -> bool {
    forall|i: int| 0 <= i < s.len() ==> is_ws(#[trigger] s[i])
}

/// `p` is a prefix of `s`.
pub open spec fn has_prefix(s: Seq<char>, p: Seq<char>) -> bool {
    p.len() <= s.len() && s.subrange(0, p.len() as int) == p
}

/// `p` is a suffix of `s`.
pub open spec fn has_suffix(s: Seq<char>, p: Seq<char>) -> bool {
    p.len() <= s.len() && s.subrange(s.len() - p.len(), s.len() as int) == p
}

/// `n` occurs in `s` at position `i`.
pub open spec fn occurs_at(s: Seq<char>, n: Seq<char>, i: int) -> bool {
    0 <= i && i + n.len() <= s.len() && s.subrange(i, i + n.len()) == n
}

/// `n` occurs somewhere in `s`.
pub open spec fn has_infix(s: Seq<char>, n: Seq<char>) -> bool {
    exists|i: int| occurs_at(s, n, i)
}

/// ASCII lower-casing of one character.
pub open spec fn lower_char(c: char) -> char {
    if 'A' <= c && c <= 'Z' {
        ((c as u32) + 32) as char
    } else {
        c
    }
}

/// ASCII lower-casing, as `str::to_ascii_lowercase` does it.
pub open spec fn lower(s: Seq<char>) -> Seq<char> {
    Seq::new(s.len(), |i: int| lower_char(s[i]))
}

/// Decimal digits of a natural number, without leading zeros.
pub open spec fn decimal(n: nat) -> Seq<char>
    decreases n,
{
    if n < 10 {
        seq![digit_char(n)]
    } else {
        decimal(n / 10).push(digit_char(n % 10))
    }
}

pub open spec fn digit_char(d: nat) -> char {
    if d == 0 { '0' }
    else if d == 1 { '1' }
    else if d == 2 { '2' }
    else if d == 3 { '3' }
    else if d == 4 { '4' }
    else if d == 5 { '5' }
    else if d == 6 { '6' }
    else if d == 7 { '7' }
    else if d == 8 { '8' }
    else { '9' }
}

/// Appends one character. Calls `String::push`, which (per its
/// documentation) appends the character to the end of the string.
#[verifier::external_body]
pub fn push_char(s: &mut String, c: char)
    ensures
        final(s)@ == old(s)@.push(c),
{
    s.push(c);
}

/// Removes the last character. Calls `String::pop`, which (per its
/// documentation) removes and returns the last character, or `None` when
/// the string is empty.
#[verifier::external_body]
pub fn pop_char(s: &mut String) -> (r: Option<char>)
    ensures
        old(s)@.len() == 0 ==> r is None && final(s)@ == old(s)@,
        old(s)@.len() > 0 ==> r == Some(old(s)@.last()) && final(s)@ == old(s)@.drop_last(),
{
    s.pop()
}

/// A fresh `String` holding the characters of `s`.
pub fn owned(s: &str) -> (r: String)
    ensures
        r@ == s@,
{
    String::from_str(s)
}

/// The characters of `s`, one by one.
pub fn chars_of(s: &str) -> (v: Vec<char>)
    ensures
        v@ == s@,
{
    let n = s.unicode_len();
    let mut v: Vec<char> = Vec::new();
    let mut i: usize = 0;
    while i < n
        invariant
            n == s@.len(),
            i <= n,
            v@ == s@.subrange(0, i as int),
        decreases n - i,
    {
        v.push(s.get_char(i));
        i = i + 1;
    }
    v
}

/// A `String` holding the characters `v[from..to]`.
pub fn string_of_range(v: &Vec<char>, from: usize, to: usize) -> (r: String)
    requires
        from <= to <= v@.len(),
    ensures
        r@ == v@.subrange(from as int, to as int),
{
    let mut r = String::new();
    let mut i = from;
    while i < to
        invariant
            from <= i <= to <= v@.len(),
            r@ == v@.subrange(from as int, i as int),
        decreases to - i,
    {
        push_char(&mut r, v[i]);
        i = i + 1;
    }
    r
}

/// Exec test of `is_ws`.
pub fn is_whitespace(c: char) -> (r: bool)
    ensures
        r == is_ws(c),
{
    ('\u{9}' <= c && c <= '\u{d}') || c == ' ' || c == '\u{85}' || c == '\u{a0}' || c == '\u{1680}'
        || ('\u{2000}' <= c && c <= '\u{200a}') || c == '\u{2028}' || c == '\u{2029}' || c
        == '\u{202f}' || c == '\u{205f}' || c == '\u{3000}'
}

proof fn lemma_trim_front_skip(s: Seq<char>, i: int)
    requires
        0 <= i <= s.len(),
        forall|k: int| 0 <= k < i ==> is_ws(#[trigger] s[k]),
    ensures
        trim_front(s) == trim_front(s.subrange(i, s.len() as int)),
    decreases i,
{
    if i > 0 {
        assert(s.drop_first().subrange(i - 1, s.drop_first().len() as int) =~= s.subrange(
            i,
            s.len() as int,
        ));
        lemma_trim_front_skip(s.drop_first(), i - 1);
    } else {
        assert(s.subrange(0, s.len() as int) =~= s);
    }
}

proof fn lemma_trim_back_cut(s: Seq<char>, j: int)
    requires
        0 <= j <= s.len(),
        forall|k: int| j <= k < s.len() ==> is_ws(#[trigger] s[k]),
    ensures
        trim_back(s) == trim_back(s.subrange(0, j)),
    decreases s.len() - j,
{
    if j < s.len() {
        assert(s.drop_last().subrange(0, j) =~= s.subrange(0, j));
        lemma_trim_back_cut(s.drop_last(), j);
    } else {
        assert(s.subrange(0, j) =~= s);
    }
}

/// What `str::trim` gives back, as a fresh `String`.
pub fn trim(s: &str) -> (r: String)
    ensures
        r@ == trimmed(s@),
{
    owned(trim_str(s))
}

/// `trimmed(s)` is empty exactly when every character of `s` is white space.
pub proof fn lemma_trimmed_empty(s: Seq<char>)
    ensures
        trimmed(s).len() == 0 <==> all_ws(s),
    decreases s.len(),
{
    lemma_trim_front_empty(s);
    let f = trim_front(s);
    if f.len() > 0 {
        lemma_trim_front_first(s);
        lemma_trim_back_keeps_first(f);
    }
}

proof fn lemma_trim_front_empty(s: Seq<char>)
    ensures
        trim_front(s).len() == 0 <==> all_ws(s),
    decreases s.len(),
{
    if s.len() > 0 && is_ws(s[0]) {
        lemma_trim_front_empty(s.drop_first());
        if all_ws(s.drop_first()) {
            assert forall|i: int| 0 <= i < s.len() implies is_ws(#[trigger] s[i]) by {
                if i > 0 {
                    assert(s[i] == s.drop_first()[i - 1]);
                }
            }
        }
        if all_ws(s) {
            assert forall|i: int| 0 <= i < s.drop_first().len() implies is_ws(
                #[trigger] s.drop_first()[i],
            ) by {
                assert(s.drop_first()[i] == s[i + 1]);
            }
        }
    } else if s.len() > 0 {
        assert(!is_ws(s[0]));
    }
}

proof fn lemma_trim_front_first(s: Seq<char>)
    requires
        trim_front(s).len() > 0,
    ensures
        !is_ws(trim_front(s)[0]),
    decreases s.len(),
{
    if s.len() > 0 && is_ws(s[0]) {
        lemma_trim_front_first(s.drop_first());
    }
}

proof fn lemma_trim_back_keeps_first(s: Seq<char>)
    requires
        s.len() > 0,
        !is_ws(s[0]),
    ensures
        trim_back(s).len() > 0,
    decreases s.len(),
{
    if is_ws(s.last()) {
        assert(s.len() > 1);
        lemma_trim_back_keeps_first(s.drop_last());
    }
}

/// Whether `s` is empty or white space only (`s.trim().is_empty()`).
pub fn is_blank(s: &str) -> (r: bool)
    ensures
        r == (trimmed(s@).len() == 0),
        r == all_ws(s@),
{
    let n = s.unicode_len();
    let mut i: usize = 0;
    while i < n
        invariant
            n == s@.len(),
            i <= n,
            forall|k: int| 0 <= k < i ==> is_ws(#[trigger] s@[k]),
        decreases n - i,
    {
        if !is_whitespace(s.get_char(i)) {
            proof {
                lemma_trimmed_empty(s@);
            }
            return false;
        }
        i = i + 1;
    }
    proof {
        lemma_trimmed_empty(s@);
    }
    true
}

/// Character-wise equality of two string slices.
pub fn str_eq(a: &str, b: &str) -> (r: bool)
    ensures
        r == (a@ == b@),
{
    let n = a.unicode_len();
    if n != b.unicode_len() {
        return false;
    }
    let mut i: usize = 0;
    while i < n
        invariant
            n == a@.len() == b@.len(),
            i <= n,
            a@.subrange(0, i as int) == b@.subrange(0, i as int),
        decreases n - i,
    {
        if a.get_char(i) != b.get_char(i) {
            assert(a@[i as int] != b@[i as int]);
            return false;
        }
        assert(a@.subrange(0, i + 1) =~= a@.subrange(0, i as int).push(a@[i as int]));
        assert(b@.subrange(0, i + 1) =~= b@.subrange(0, i as int).push(b@[i as int]));
        i = i + 1;
    }
    assert(a@ =~= a@.subrange(0, n as int));
    assert(b@ =~= b@.subrange(0, n as int));
    true
}

/// Whether `s` at position `at` holds the characters of `n`.
fn matches_at(s: &Vec<char>, n: &Vec<char>, at: usize) -> (r: bool)
    requires
        at + n@.len() <= s@.len(),
    ensures
        r == (s@.subrange(at as int, at + n@.len()) == n@),
{
    let len = n.len();
    let total = s.len();
    let mut i: usize = 0;
    while i < len
        invariant
            len == n@.len(),
            total == s@.len(),
            at + len <= s@.len(),
            i <= len,
            s@.subrange(at as int, at + i) == n@.subrange(0, i as int),
        decreases len - i,
    {
        if s[at + i] != n[i] {
            assert(s@.subrange(at as int, at + len)[i as int] != n@[i as int]);
            return false;
        }
        assert(s@.subrange(at as int, at + i + 1) =~= s@.subrange(at as int, at + i).push(
            s@[at + i],
        ));
        assert(n@.subrange(0, i + 1) =~= n@.subrange(0, i as int).push(n@[i as int]));
        i = i + 1;
    }
    assert(n@.subrange(0, len as int) =~= n@);
    true
}

/// `str::starts_with` for a string-slice pattern.
pub fn starts_with(s: &str, p: &str) -> (r: bool)
    ensures
        r == has_prefix(s@, p@),
{
    let sv = chars_of(s);
    let pv = chars_of(p);
    if pv.len() > sv.len() {
        return false;
    }
    matches_at(&sv, &pv, 0)
}

/// `str::ends_with` for a string-slice pattern.
pub fn ends_with(s: &str, p: &str) -> (r: bool)
    ensures
        r == has_suffix(s@, p@),
{
    let sv = chars_of(s);
    let pv = chars_of(p);
    if pv.len() > sv.len() {
        return false;
    }
    matches_at(&sv, &pv, sv.len() - pv.len())
}

/// `str::contains` for a string-slice pattern.
pub fn contains(s: &str, needle: &str) -> (r: bool)
    ensures
        r == has_infix(s@, needle@),
{
    let sv = chars_of(s);
    let nv = chars_of(needle);
    if nv.len() > sv.len() {
        assert forall|i: int| !occurs_at(s@, needle@, i) by {}
        return false;
    }
    let last = sv.len() - nv.len();
    let mut i: usize = 0;
    loop
        invariant
            sv@ == s@,
            nv@ == needle@,
            last == sv@.len() - nv@.len(),
            i <= last,
            forall|k: int| 0 <= k < i ==> !occurs_at(s@, needle@, k),
        ensures
            forall|k: int| 0 <= k <= last ==> !occurs_at(s@, needle@, k),
        decreases last - i,
    {
        if matches_at(&sv, &nv, i) {
            assert(occurs_at(s@, needle@, i as int));
            return true;
        }
        if i == last {
            break;
        }
        i = i + 1;
    }
    assert forall|k: int| !occurs_at(s@, needle@, k) by {
        if 0 <= k && k <= last {
        }
    }
    false
}

/// `str::to_ascii_lowercase`.
pub fn to_ascii_lowercase(s: &str) -> (r: String)
    ensures
        r@ == lower(s@),
{
    let v = chars_of(s);
    let mut r = String::new();
    let mut i: usize = 0;
    while i < v.len()
        invariant
            v@ == s@,
            i <= v@.len(),
            r@ == lower(s@).subrange(0, i as int),
        decreases v@.len() - i,
    {
        let c = v[i];
        let l = if 'A' <= c && c <= 'Z' {
            lower_ascii_letter(c)
        } else {
            c
        };
        push_char(&mut r, l);
        assert(lower(s@).subrange(0, i + 1) =~= lower(s@).subrange(0, i as int).push(l));
        i = i + 1;
    }
    assert(lower(s@).subrange(0, v@.len() as int) =~= lower(s@));
    r
}

/// The ASCII lower-case letter for an upper-case one.
fn lower_ascii_letter(c: char) -> (r: char)
    requires
        'A' <= c <= 'Z',
    ensures
        r == lower_char(c),
{
    match c {
        'A' => 'a', 'B' => 'b', 'C' => 'c', 'D' => 'd', 'E' => 'e', 'F' => 'f', 'G' => 'g',
        'H' => 'h', 'I' => 'i', 'J' => 'j', 'K' => 'k', 'L' => 'l', 'M' => 'm', 'N' => 'n',
        'O' => 'o', 'P' => 'p', 'Q' => 'q', 'R' => 'r', 'S' => 's', 'T' => 't', 'U' => 'u',
        'V' => 'v', 'W' => 'w', 'X' => 'x', 'Y' => 'y', _ => 'z',
    }
}


/// Exec digit for `digit_char`.
fn digit(d: u64) -> (c: char)
    requires
        d < 10,
    ensures
        c == digit_char(d as nat),
{
    match d {
        0 => '0', 1 => '1', 2 => '2', 3 => '3', 4 => '4', 5 => '5', 6 => '6', 7 => '7',
        8 => '8', _ => '9',
    }
}

/// Appends the decimal digits of `n`.
pub fn push_decimal(s: &mut String, n: u64)
    ensures
        final(s)@ == old(s)@ + decimal(n as nat),
    decreases n,
{
    if n < 10 {
        push_char(s, digit(n));
        assert(old(s)@.push(digit_char(n as nat)) =~= old(s)@ + decimal(n as nat));
    } else {
        push_decimal(s, n / 10);
        push_char(s, digit(n % 10));
        assert(decimal(n as nat) == decimal((n / 10) as nat).push(digit_char((n % 10) as nat)));
        assert((old(s)@ + decimal((n / 10) as nat)).push(digit_char((n % 10) as nat))
            =~= old(s)@ + decimal(n as nat));
    }
}

/// Appends the decimal digits of a wide `n`.
pub fn push_decimal_wide(s: &mut String, n: u128)
    ensures
        final(s)@ == old(s)@ + decimal(n as nat),
    decreases n,
{
    if n < 10 {
        push_char(s, digit(n as u64));
        assert(old(s)@.push(digit_char(n as nat)) =~= old(s)@ + decimal(n as nat));
    } else {
        push_decimal_wide(s, n / 10);
        push_char(s, digit((n % 10) as u64));
        assert(decimal(n as nat) == decimal((n / 10) as nat).push(digit_char((n % 10) as nat)));
        assert((old(s)@ + decimal((n / 10) as nat)).push(digit_char((n % 10) as nat))
            =~= old(s)@ + decimal(n as nat));
    }
}

/// The decimal representation of `n`, as `n.to_string()` gives it.
pub fn decimal_string(n: u64) -> (r: String)
    ensures
        r@ == decimal(n as nat),
{
    let mut r = String::new();
    push_decimal(&mut r, n);
    assert(Seq::<char>::empty() + decimal(n as nat) =~= decimal(n as nat));
    r
}

/// Appends the characters of `t`.
pub fn push_str(s: &mut String, t: &str)
    ensures
        final(s)@ == old(s)@ + t@,
{
    s.append(t);
}

/// A copy of `v`, element by element.
pub fn clone_strings(v: &Vec<String>) -> (r: Vec<String>)
    ensures
        r@ == v@,
{
    let mut r: Vec<String> = Vec::new();
    let mut i: usize = 0;
    while i < v.len()
        invariant
            i <= v@.len(),
            r@ == v@.subrange(0, i as int),
        decreases v@.len() - i,
    {
        r.push(v[i].clone());
        assert(r@ =~= v@.subrange(0, i + 1));
        i = i + 1;
    }
    assert(r@ =~= v@);
    r
}

/// A copy of an optional string.
pub fn clone_opt_string(v: &Option<String>) -> (r: Option<String>)
    ensures
        r == *v,
{
    match v {
        Some(s) => Some(s.clone()),
        None => None,
    }
}

/// The trimmed part of `s`, as a sub-slice (what `str::trim` returns).
pub fn trim_str(s: &str) -> (r: &str)
    ensures
        r@ == trimmed(s@),
{
    let v = chars_of(s);
    let n = v.len();
    let mut a: usize = 0;
    while a < n && is_whitespace(v[a])
        invariant
            n == v@.len(),
            a <= n,
            forall|k: int| 0 <= k < a ==> is_ws(#[trigger] v@[k]),
        decreases n - a,
    {
        a = a + 1;
    }
    let mut b: usize = n;
    while b > a && is_whitespace(v[b - 1])
        invariant
            n == v@.len(),
            a <= b <= n,
            forall|k: int| b <= k < n ==> is_ws(#[trigger] v@[k]),
        decreases b,
    {
        b = b - 1;
    }
    proof {
        lemma_trim_bounds(v@, a as int, b as int);
    }
    s.substring_char(a, b)
}

proof fn lemma_trim_bounds(s: Seq<char>, a: int, b: int)
    requires
        0 <= a <= b <= s.len(),
        forall|k: int| 0 <= k < a ==> is_ws(#[trigger] s[k]),
        a < s.len() ==> !is_ws(s[a]),
        forall|k: int| b <= k < s.len() ==> is_ws(#[trigger] s[k]),
        b > a ==> !is_ws(s[b - 1]),
    ensures
        trimmed(s) == s.subrange(a, b),
{
    lemma_trim_front_skip(s, a);
    let front = s.subrange(a, s.len() as int);
    if a < s.len() {
        assert(!is_ws(front[0]));
    }
    assert(trim_front(s) == front);
    assert forall|k: int| (b - a) <= k < front.len() implies is_ws(#[trigger] front[k]) by {
        assert(front[k] == s[k + a]);
    }
    lemma_trim_back_cut(front, b - a);
    assert(front.subrange(0, b - a) =~= s.subrange(a, b));
    let t = s.subrange(a, b);
    if t.len() > 0 {
        assert(t.last() == s[b - 1]);
    }
}


/// Three-way lexicographic comparison by character value: -1, 0 or 1.
/// For valid strings this is the order of `str`'s `Ord`, which compares the
/// UTF-8 bytes, and UTF-8 keeps the order of code points.
pub open spec fn char_order(a: Seq<char>, b: Seq<char>) -> int
    decreases a.len(),
{
    if a.len() == 0 {
        if b.len() == 0 {
            0
        } else {
            -1
        }
    } else if b.len() == 0 {
        1
    } else if a[0] < b[0] {
        -1
    } else if a[0] > b[0] {
        1
    } else {
        char_order(a.drop_first(), b.drop_first())
    }
}

/// Swapping the arguments negates the comparison; it is zero exactly on equal
/// sequences.
pub proof fn lemma_char_order_basics(a: Seq<char>, b: Seq<char>)
    ensures
        char_order(a, b) == -char_order(b, a),
        (char_order(a, b) == 0) == (a == b),
        -1 <= char_order(a, b) <= 1,
    decreases a.len(),
{
    if a.len() > 0 && b.len() > 0 && a[0] == b[0] {
        lemma_char_order_basics(a.drop_first(), b.drop_first());
        if a.drop_first() == b.drop_first() {
            assert(a =~= seq![a[0]] + a.drop_first());
            assert(b =~= seq![b[0]] + b.drop_first());
        }
    } else if a.len() > 0 && b.len() > 0 {
        assert(a[0] != b[0]);
    } else if a.len() == 0 && b.len() == 0 {
        assert(a =~= b);
    }
}

/// The comparison is transitive.
pub proof fn lemma_char_order_trans(a: Seq<char>, b: Seq<char>, c: Seq<char>)
    requires
        char_order(a, b) <= 0,
        char_order(b, c) <= 0,
    ensures
        char_order(a, c) <= 0,
    decreases a.len(),
{
    if a.len() > 0 && b.len() > 0 && c.len() > 0 && a[0] == b[0] && b[0] == c[0] {
        lemma_char_order_trans(a.drop_first(), b.drop_first(), c.drop_first());
    }
}

/// Exec `char_order`.
pub fn compare_str(a: &str, b: &str) -> (r: i8)
    ensures
        r as int == char_order(a@, b@),
{
    let av = chars_of(a);
    let bv = chars_of(b);
    let mut i: usize = 0;
    assert(a@.skip(0) =~= a@ && b@.skip(0) =~= b@);
    loop
        invariant
            av@ == a@,
            bv@ == b@,
            i <= av@.len(),
            i <= bv@.len(),
            char_order(a@, b@) == char_order(a@.skip(i as int), b@.skip(i as int)),
        decreases av@.len() - i,
    {
        let ghost sa = a@.skip(i as int);
        let ghost sb = b@.skip(i as int);
        if i == av.len() {
            return if i == bv.len() {
                0
            } else {
                -1
            };
        }
        if i == bv.len() {
            return 1;
        }
        assert(sa[0] == av@[i as int] && sb[0] == bv@[i as int]);
        if av[i] < bv[i] {
            return -1;
        }
        if av[i] > bv[i] {
            return 1;
        }
        assert(sa.drop_first() =~= a@.skip(i + 1));
        assert(sb.drop_first() =~= b@.skip(i + 1));
        i = i + 1;
    }
}


/// Whether every character is an ASCII digit.
pub open spec fn all_digits(s: Seq<char>) -> bool {
    forall|i: int| 0 <= i < s.len() ==> '0' <= #[trigger] s[i] && s[i] <= '9'
}

/// The value of a string of ASCII digits.
pub open spec fn digits_value(s: Seq<char>) -> nat
    decreases s.len(),
{
    if s.len() == 0 {
        0
    } else {
        digits_value(s.drop_last()) * 10 + ((s.last() as u32) - ('0' as u32)) as nat
    }
}

/// What `str::parse::<u64>` accepts and gives: an optional `+`, then one or
/// more ASCII digits whose value fits in a `u64`.
pub open spec fn spec_parse_u64(s: Seq<char>) -> Option<u64> {
    let d = if s.len() > 0 && s[0] == '+' {
        s.drop_first()
    } else {
        s
    };
    if d.len() > 0 && all_digits(d) && digits_value(d) <= u64::MAX {
        Some(digits_value(d) as u64)
    } else {
        None
    }
}

proof fn lemma_digits_value_grows(s: Seq<char>, k: int)
    requires
        0 <= k <= s.len(),
        all_digits(s),
    ensures
        digits_value(s.take(k)) <= digits_value(s),
    decreases s.len() - k,
{
    if k < s.len() {
        lemma_digits_value_grows(s, k + 1);
        assert(s.take(k + 1).drop_last() =~= s.take(k));
    } else {
        assert(s.take(k) =~= s);
    }
}

/// `str::parse::<u64>`.
pub fn parse_u64(s: &str) -> (r: Option<u64>)
    ensures
        r == spec_parse_u64(s@),
{
    let v = chars_of(s);
    let n = v.len();
    let start: usize = if n > 0 && v[0] == '+' {
        1
    } else {
        0
    };
    let ghost d = if s@.len() > 0 && s@[0] == '+' {
        s@.drop_first()
    } else {
        s@
    };
    assert(d =~= s@.subrange(start as int, n as int));
    if start == n {
        return None;
    }
    let mut value: u64 = 0;
    let mut i: usize = start;
    while i < n
        invariant
            v@ == s@,
            n == v@.len(),
            start <= i <= n,
            d == s@.subrange(start as int, n as int),
            d == (if s@.len() > 0 && s@[0] == '+' {
                s@.drop_first()
            } else {
                s@
            }),
            start < n,
            all_digits(d.take(i - start)),
            value as nat == digits_value(d.take(i - start)),
        decreases n - i,
    {
        let c = v[i];
        assert(d[i - start] == c);
        if c < '0' || c > '9' {
            assert(!all_digits(d)) by {
                let k = (i - start) as int;
                assert(!('0' <= d[k] && d[k] <= '9'));
            }
            assert(spec_parse_u64(s@) is None);
            return None;
        }
        let digit = (c as u32 - '0' as u32) as u64;
        assert(d.take(i - start + 1).drop_last() =~= d.take(i - start));
        assert(d.take(i - start + 1).last() == c);
        assert(digits_value(d.take(i - start + 1)) == value as nat * 10 + digit as nat);
        if value > 1844674407370955161 || (value == 1844674407370955161 && digit > 5) {
            proof {
                if all_digits(d) {
                    lemma_digits_value_grows(d, i - start + 1);
                    assert(digits_value(d) > u64::MAX);
                }
            }
            assert(spec_parse_u64(s@) is None);
            return None;
        }
        value = value * 10 + digit;
        i = i + 1;
    }
    assert(d.take(n - start) =~= d);
    Some(value)
}


/// ASCII lower-casing of one character.
pub fn to_ascii_lowercase_char(c: char) -> (r: char)
    ensures
        r == lower_char(c),
{
    if 'A' <= c && c <= 'Z' {
        lower_ascii_letter(c)
    } else {
        c
    }
}


/// The pieces of `s` between occurrences of `sep` (as `str::split` gives
/// them for a single-character pattern).
pub open spec fn split_char(s: Seq<char>, sep: char) -> Seq<Seq<char>>
    decreases s.len(),
{
    if s.len() == 0 {
        seq![Seq::empty()]
    } else if s.last() == sep {
        split_char(s.drop_last(), sep).push(Seq::empty())
    } else {
        let p = split_char(s.drop_last(), sep);
        p.update(p.len() - 1, p.last().push(s.last()))
    }
}

pub proof fn lemma_split_char_nonempty(s: Seq<char>, sep: char)
    ensures
        split_char(s, sep).len() >= 1,
    decreases s.len(),
{
    if s.len() > 0 {
        lemma_split_char_nonempty(s.drop_last(), sep);
    }
}

/// A line without the carriage return that ended it.
pub open spec fn strip_cr(l: Seq<char>) -> Seq<char> {
    if l.len() > 0 && l.last() == '\r' {
        l.drop_last()
    } else {
        l
    }
}

/// The lines of `s`, as `str::lines` gives them: split at `\n`, each line
/// ended by `\n` loses a `\r` before it, and a final empty line is dropped.
pub open spec fn text_lines(s: Seq<char>) -> Seq<Seq<char>> {
    let p = split_char(s, '\n');
    let ended = p.drop_last().map_values(|l: Seq<char>| strip_cr(l));
    if p.last().len() > 0 {
        ended.push(p.last())
    } else {
        ended
    }
}

/// The pieces of `s` between occurrences of `sep`.
pub fn split_on(s: &str, sep: char) -> (r: Vec<String>)
    ensures
        r@.map_values(|x: String| x@) == split_char(s@, sep),
{
    let v = chars_of(s);
    let mut pieces: Vec<String> = Vec::new();
    pieces.push(String::new());
    let mut i: usize = 0;
    assert(s@.take(0) =~= Seq::<char>::empty());
    assert(pieces@.map_values(|x: String| x@) =~= seq![Seq::<char>::empty()]);
    while i < v.len()
        invariant
            v@ == s@,
            i <= v@.len(),
            pieces@.len() >= 1,
            pieces@.map_values(|x: String| x@) == split_char(s@.take(i as int), sep),
        decreases v@.len() - i,
    {
        let c = v[i];
        let ghost prev = pieces@.map_values(|x: String| x@);
        assert(s@.take(i + 1).drop_last() =~= s@.take(i as int));
        assert(s@.take(i + 1).last() == c);
        if c == sep {
            pieces.push(String::new());
            assert(pieces@.map_values(|x: String| x@) =~= prev.push(Seq::empty()));
        } else {
            let mut last = pieces.pop().unwrap();
            push_char(&mut last, c);
            pieces.push(last);
            assert(pieces@.map_values(|x: String| x@) =~= prev.update(
                prev.len() - 1,
                prev.last().push(c),
            ));
        }
        i = i + 1;
    }
    assert(s@.take(v@.len() as int) =~= s@);
    pieces
}

/// The lines of `s` (`str::lines`).
pub fn lines_of(s: &str) -> (r: Vec<String>)
    ensures
        r@.map_values(|x: String| x@) == text_lines(s@),
{
    let pieces = split_on(s, '\n');
    let ghost p = split_char(s@, '\n');
    proof {
        lemma_split_char_nonempty(s@, '\n');
    }
    let n = pieces.len();
    let mut out: Vec<String> = Vec::new();
    let mut i: usize = 0;
    while i + 1 < n
        invariant
            n == pieces@.len(),
            n >= 1,
            p == pieces@.map_values(|x: String| x@),
            i + 1 <= n,
            out@.map_values(|x: String| x@) == p.drop_last().take(i as int).map_values(
                |l: Seq<char>| strip_cr(l),
            ),
        decreases n - i,
    {
        let piece = &pieces[i];
        assert(p[i as int] == piece@);
        let len = piece.as_str().unicode_len();
        let line = if len > 0 && piece.as_str().get_char(len - 1) == '\r' {
            piece.as_str().substring_char(0, len - 1)
        } else {
            piece.as_str()
        };
        assert(line@ == strip_cr(piece@)) by {
            if len > 0 {
                assert(piece@.drop_last() =~= piece@.subrange(0, len - 1));
            }
        }
        let ghost before = out@.map_values(|x: String| x@);
        out.push(owned(line));
        assert(out@.map_values(|x: String| x@) =~= before.push(strip_cr(p[i as int])));
        assert(p.drop_last().take(i + 1) =~= p.drop_last().take(i as int).push(p[i as int]));
        assert(out@.map_values(|x: String| x@) =~= p.drop_last().take(i + 1).map_values(
            |l: Seq<char>| strip_cr(l),
        ));
        i = i + 1;
    }
    assert(p.drop_last().take(i as int) =~= p.drop_last());
    let last = &pieces[n - 1];
    assert(p.last() == last@);
    if last.as_str().unicode_len() > 0 {
        let ghost before = out@.map_values(|x: String| x@);
        out.push(last.clone());
        assert(out@.map_values(|x: String| x@) =~= before.push(p.last()));
    }
    out
}

/// The characters up to the first white space.
pub open spec fn take_word(t: Seq<char>) -> Seq<char>
    decreases t.len(),
{
    if t.len() == 0 || is_ws(t[0]) {
        Seq::empty()
    } else {
        seq![t[0]] + take_word(t.drop_first())
    }
}

/// The first white-space separated word (`split_whitespace().next()`).
pub open spec fn first_word(s: Seq<char>) -> Option<Seq<char>> {
    let t = trim_front(s);
    if t.len() == 0 {
        None
    } else {
        Some(take_word(t))
    }
}

proof fn lemma_take_word(t: Seq<char>, j: int)
    requires
        0 <= j <= t.len(),
        forall|k: int| 0 <= k < j ==> !is_ws(#[trigger] t[k]),
        j < t.len() ==> is_ws(t[j]),
    ensures
        take_word(t) == t.subrange(0, j),
    decreases t.len(),
{
    if t.len() == 0 || is_ws(t[0]) {
        assert(t.subrange(0, j) =~= Seq::<char>::empty());
    } else {
        let d = t.drop_first();
        assert forall|k: int| 0 <= k < j - 1 implies !is_ws(#[trigger] d[k]) by {
            assert(d[k] == t[k + 1]);
        }
        lemma_take_word(d, j - 1);
        assert(seq![t[0]] + d.subrange(0, j - 1) =~= t.subrange(0, j));
    }
}

/// The first white-space separated word of `s`.
pub fn first_word_of(s: &str) -> (r: Option<String>)
    ensures
        match r {
            Some(w) => first_word(s@) == Some(w@),
            None => first_word(s@) is None,
        },
{
    let v = chars_of(s);
    let n = v.len();
    let mut a: usize = 0;
    while a < n && is_whitespace(v[a])
        invariant
            n == v@.len(),
            v@ == s@,
            a <= n,
            forall|k: int| 0 <= k < a ==> is_ws(#[trigger] v@[k]),
        decreases n - a,
    {
        a = a + 1;
    }
    proof {
        lemma_trim_front_skip(s@, a as int);
        let front = s@.subrange(a as int, n as int);
        if a < n {
            assert(!is_ws(front[0]));
        }
        assert(trim_front(s@) == front);
    }
    if a == n {
        return None;
    }
    let mut b: usize = a;
    while b < n && !is_whitespace(v[b])
        invariant
            n == v@.len(),
            v@ == s@,
            a <= b <= n,
            forall|k: int| a <= k < b ==> !is_ws(#[trigger] v@[k]),
        decreases n - b,
    {
        b = b + 1;
    }
    proof {
        let t = s@.subrange(a as int, n as int);
        assert forall|k: int| 0 <= k < b - a implies !is_ws(#[trigger] t[k]) by {
            assert(t[k] == v@[k + a]);
        }
        if b < n {
            assert(t[b - a] == v@[b as int]);
        }
        lemma_take_word(t, (b - a) as int);
        assert(t.subrange(0, (b - a) as int) =~= v@.subrange(a as int, b as int));
    }
    Some(string_of_range(&v, a, b))
}

/// `s` with the prefix `p` removed, when `s` starts with it.
pub fn strip_prefix_of(s: &str, p: &str) -> (r: Option<String>)
    ensures
        match r {
            Some(rest) => has_prefix(s@, p@) && rest@ == s@.subrange(p@.len() as int, s@.len() as int),
            None => !has_prefix(s@, p@),
        },
{
    if starts_with(s, p) {
        let v = chars_of(s);
        let k = p.unicode_len();
        Some(string_of_range(&v, k, v.len()))
    } else {
        None
    }
}

/// The first position of `c` in `s`.
pub open spec fn index_of_char(s: Seq<char>, c: char) -> Option<int> {
    if exists|i: int| 0 <= i < s.len() && s[i] == c {
        Some(choose|i: int| 0 <= i < s.len() && s[i] == c && forall|k: int| 0 <= k < i ==> s[k] != c)
    } else {
        None
    }
}

/// What `str::split_once` gives for a character: the text before its first
/// occurrence and the text after it.
pub open spec fn split_once_of(s: Seq<char>, c: char) -> Option<(Seq<char>, Seq<char>)> {
    match index_of_char(s, c) {
        Some(i) => Some((s.subrange(0, i), s.subrange(i + 1, s.len() as int))),
        None => None,
    }
}

/// `str::split_once` for a character.
pub fn split_once(s: &str, c: char) -> (r: Option<(String, String)>)
    ensures
        match r {
            Some((a, b)) => split_once_of(s@, c) == Some((a@, b@)),
            None => split_once_of(s@, c) is None,
        },
{
    let v = chars_of(s);
    let mut i: usize = 0;
    while i < v.len()
        invariant
            v@ == s@,
            i <= v@.len(),
            forall|k: int| 0 <= k < i ==> v@[k] != c,
        decreases v@.len() - i,
    {
        if v[i] == c {
            assert(index_of_char(s@, c) == Some(i as int)) by {
                let w = choose|w: int| 0 <= w < s@.len() && s@[w] == c && forall|k: int| 0 <= k < w ==> s@[k] != c;
                assert(0 <= i < s@.len() && s@[i as int] == c);
                if w < i {
                } else if w > i {
                }
            }
            return Some((string_of_range(&v, 0, i), string_of_range(&v, i + 1, v.len())));
        }
        i = i + 1;
    }
    None
}


/// The white-space separated words of `s` (`str::split_whitespace`): the
/// maximal runs of characters that are not white space, in order.
pub open spec fn words(s: Seq<char>) -> Seq<Seq<char>>
    decreases s.len(),
{
    if s.len() == 0 {
        Seq::empty()
    } else {
        let p = words(s.drop_last());
        let c = s.last();
        if is_ws(c) {
            p
        } else if s.len() >= 2 && !is_ws(s[s.len() - 2]) {
            p.update(p.len() - 1, p.last().push(c))
        } else {
            p.push(seq![c])
        }
    }
}

/// The words of `s`, as `str::split_whitespace` yields them.
pub fn words_of(s: &str) -> (r: Vec<String>)
    ensures
        r@.map_values(|x: String| x@) == words(s@),
{
    let v = chars_of(s);
    let mut out: Vec<String> = Vec::new();
    let mut i: usize = 0;
    assert(out@.map_values(|x: String| x@) =~= words(s@.take(0)));
    while i < v.len()
        invariant
            v@ == s@,
            i <= v@.len(),
            out@.map_values(|x: String| x@) == words(s@.take(i as int)),
            i > 0 && !is_ws(s@[i - 1]) ==> out@.len() >= 1,
        decreases v@.len() - i,
    {
        let c = v[i];
        let ghost t = s@.take(i + 1);
        let ghost prev = out@.map_values(|x: String| x@);
        assert(t.drop_last() =~= s@.take(i as int));
        assert(t.last() == c);
        if is_whitespace(c) {
        } else if i >= 1 && !is_whitespace(v[i - 1]) {
            assert(t[t.len() - 2] == s@[i - 1]);
            let mut last = out.pop().unwrap();
            push_char(&mut last, c);
            out.push(last);
            assert(out@.map_values(|x: String| x@) =~= prev.update(
                prev.len() - 1,
                prev.last().push(c),
            ));
        } else {
            if i >= 1 {
                assert(t[t.len() - 2] == s@[i - 1]);
            }
            let mut w = String::new();
            push_char(&mut w, c);
            assert(w@ =~= seq![c]);
            out.push(w);
            assert(out@.map_values(|x: String| x@) =~= prev.push(seq![c]));
        }
        i = i + 1;
    }
    assert(s@.take(v@.len() as int) =~= s@);
    out
}

/// `s` without its leading white space (`str::trim_start`).
pub fn trim_start_of(s: &str) -> (r: String)
    ensures
        r@ == trim_front(s@),
{
    let v = chars_of(s);
    let n = v.len();
    let mut a: usize = 0;
    while a < n && is_whitespace(v[a])
        invariant
            n == v@.len(),
            v@ == s@,
            a <= n,
            forall|k: int| 0 <= k < a ==> is_ws(#[trigger] v@[k]),
        decreases n - a,
    {
        a = a + 1;
    }
    proof {
        lemma_trim_front_skip(s@, a as int);
        let front = s@.subrange(a as int, n as int);
        if a < n {
            assert(!is_ws(front[0]));
        }
        assert(trim_front(s@) == front);
    }
    string_of_range(&v, a, n)
}

} // verus!
