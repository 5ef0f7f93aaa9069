//! Character-level text operations, stated over `Seq<char>`.
use vstd::prelude::*;

verus! {

/// `p` occurs in `s` starting at index `i`.
pub open spec fn matches_at(s: Seq<char>, p: Seq<char>, i: int) -> bool {
    0 <= i && i + p.len() <= s.len() && s.subrange(i, i + p.len()) == p
}

/// The leftmost index at or after `i` where `p` occurs in `s`.
pub open spec fn first_match_from(s: Seq<char>, p: Seq<char>, i: int) -> Option<int>
    decreases s.len() - i,
{
    if i < 0 || i + p.len() > s.len() {
        None
    } else if p.len() == 0 || s.subrange(i, i + p.len()) == p {
        Some(i)
    } else {
        first_match_from(s, p, i + 1)
    }
}

/// The leftmost index where `p` occurs in `s`.
pub open spec fn first_match(s: Seq<char>, p: Seq<char>) -> Option<int> {
    first_match_from(s, p, 0)
}

pub open spec fn contains(s: Seq<char>, p: Seq<char>) -> bool {
    first_match(s, p) is Some
}

pub open spec fn starts_with(s: Seq<char>, p: Seq<char>) -> bool {
    p.len() <= s.len() && s.take(p.len() as int) == p
}

pub open spec fn ends_with(s: Seq<char>, p: Seq<char>) -> bool {
    p.len() <= s.len() && s.skip(s.len() - p.len()) == p
}

/// `s` with its first occurrence of `p` replaced by `w` (what `str::replacen(p, w, 1)` gives).
pub open spec fn replace_first(s: Seq<char>, p: Seq<char>, w: Seq<char>) -> Seq<char> {
    match first_match(s, p) {
        Some(k) => s.take(k) + w + s.skip(k + p.len()),
        None => s,
    }
}

/// The part of `s` before the first occurrence of `p`, or all of `s`.
pub open spec fn before_first(s: Seq<char>, p: Seq<char>) -> Seq<char> {
    match first_match(s, p) {
        Some(k) => s.take(k),
        None => s,
    }
}

/// The part of `s` after the first occurrence of `p`.
pub open spec fn after_first(s: Seq<char>, p: Seq<char>) -> Option<Seq<char>> {
    match first_match(s, p) {
        Some(k) => Some(s.skip(k + p.len())),
        None => None,
    }
}

/// The second piece of `s` split at `p` (what `s.split(p).nth(1)` gives).
pub open spec fn second_piece(s: Seq<char>, p: Seq<char>) -> Option<Seq<char>> {
    match after_first(s, p) {
        Some(rest) => Some(before_first(rest, p)),
        None => None,
    }
}

/// The Unicode White_Space property, which `char::is_whitespace` tests.
pub open spec fn is_white_space(c: char) -> bool {
    let u = c as u32;
    ||| 0x9 <= u <= 0xd
    ||| u == 0x20
    ||| u == 0x85
    ||| u == 0xa0
    ||| u == 0x1680
    ||| 0x2000 <= u <= 0x200a
    ||| u == 0x2028
    ||| u == 0x2029
    ||| u == 0x202f
    ||| u == 0x205f
    ||| u == 0x3000
}

pub open spec fn trim_start(s: Seq<char>) -> Seq<char>
    decreases s.len(),
{
    if s.len() > 0 && is_white_space(s[0]) {
        trim_start(s.drop_first())
    } else {
        s
    }
}

pub open spec fn trim_end(s: Seq<char>) -> Seq<char>
    decreases s.len(),
{
    if s.len() > 0 && is_white_space(s.last()) {
        trim_end(s.drop_last())
    } else {
        s
    }
}

/// `s` without leading and trailing white space (what `str::trim` gives).
pub open spec fn trim(s: Seq<char>) -> Seq<char> {
    trim_end(trim_start(s))
}

/// `s` with every space replaced by an underscore.
pub open spec fn spaces_to_underscores(s: Seq<char>) -> Seq<char> {
    Seq::new(s.len(), |i: int| if s[i] == ' ' { '_' } else { s[i] })
}

/// The decimal digits of `n`, as `Display` writes an unsigned integer.
pub open spec fn decimal(n: nat) -> Seq<char>
    decreases n,
{
    if n < 10 {
        seq![digit_char(n)]
    } else {
        decimal(n / 10).push(digit_char(n % 10))
    }
}

pub open spec fn digit_char(d: nat) -> char {
    if d == 0 { '0' }
    else if d == 1 { '1' }
    else if d == 2 { '2' }
    else if d == 3 { '3' }
    else if d == 4 { '4' }
    else if d == 5 { '5' }
    else if d == 6 { '6' }
    else if d == 7 { '7' }
    else if d == 8 { '8' }
    else { '9' }
}

/// What `str::to_lowercase` returns for a string.
pub uninterp spec fn lowercase_of(s: Seq<char>) -> Seq<char>;

/// An ASCII character.
pub open spec fn is_ascii_char(c: char) -> bool {
    (c as u32) < 128
}

/// Every character of `s` is ASCII.
pub open spec fn all_ascii(s: Seq<char>) -> bool {
    forall|i: int| 0 <= i < s.len() ==> is_ascii_char(#[trigger] s[i])
}

/// The lowercase of an ASCII character: 'A'..='Z' become 'a'..='z', the rest stay.
pub open spec fn ascii_lower(c: char) -> char {
    if 65 <= (c as u32) <= 90 {
        ((c as u32) + 32) as char
    } else {
        c
    }
}

/// Calls `str::to_lowercase`, whose result depends on its argument alone. Of the
/// Unicode lowercase mapping it documents, only the ASCII part is stated: a string
/// of ASCII characters has each 'A'..='Z' mapped to 'a'..='z' and the rest kept.
#[verifier::external_body]
pub(crate) fn to_lowercase(s: &str) -> (r: String)
    ensures
        r@ == lowercase_of(s@),
        all_ascii(s@) ==> r@ == s@.map_values(|c: char| ascii_lower(c)),
{
    s.to_lowercase()
}

/// Calls `String::push`, which appends one character.
#[verifier::external_body]
fn push_char(s: &mut String, c: char)
    ensures
        final(s)@ == old(s)@.push(c),
{
    s.push(c)
}

pub proof fn lemma_first_match_from(s: Seq<char>, p: Seq<char>, i: int)
    requires
        0 <= i,
    ensures
        match first_match_from(s, p, i) {
            Some(k) => i <= k && matches_at(s, p, k) && forall|j: int|
                i <= j < k ==> !matches_at(s, p, j),
            None => forall|j: int| i <= j ==> !matches_at(s, p, j),
        },
    decreases s.len() - i,
{
    if i + p.len() > s.len() {
    } else if p.len() == 0 || s.subrange(i, i + p.len()) == p {
        assert(s.subrange(i, i + p.len()) == p);
    } else {
        lemma_first_match_from(s, p, i + 1);
    }
}

/// The leftmost-occurrence characterisation of `first_match`.
pub proof fn lemma_first_match(s: Seq<char>, p: Seq<char>)
    ensures
        match first_match(s, p) {
            Some(k) => 0 <= k && matches_at(s, p, k) && forall|j: int|
                0 <= j < k ==> !matches_at(s, p, j),
            None => forall|j: int| !matches_at(s, p, j),
        },
{
    lemma_first_match_from(s, p, 0);
}

/// The characters of `s`.
pub fn chars_of(s: &str) -> (v: Vec<char>)
    ensures
        v@ == s@,
{
    broadcast use vstd::string::group_string_axioms;

    let mut v: Vec<char> = Vec::new();
    for c in it: s.chars()
        invariant
            v@ == it.seq().take(it.index() as int),
            it.seq() == s@,
    {
        v.push(c);
    }
    assert(v@ == s@);
    v
}

/// The string made of the characters `v[from..to]`.
pub fn string_from(v: &Vec<char>, from: usize, to: usize) -> (r: String)
    requires
        from <= to <= v@.len(),
    ensures
        r@ == v@.subrange(from as int, to as int),
{
    let mut r = String::new();
    let mut i = from;
    while i < to
        invariant
            from <= i <= to <= v@.len(),
            r@ == v@.subrange(from as int, i as int),
        decreases to - i,
    {
        push_char(&mut r, v[i]);
        assert(v@.subrange(from as int, i + 1) == v@.subrange(from as int, i as int).push(v@[i as int]));
        i = i + 1;
    }
    r
}

/// The string made of all the characters of `v`.
pub fn string_of(v: &Vec<char>) -> (r: String)
    ensures
        r@ == v@,
{
    let r = string_from(v, 0, v.len());
    assert(v@.subrange(0, v@.len() as int) == v@);
    r
}

/// A copy of `s` as an owned `String`.
pub fn owned(s: &str) -> (r: String)
    ensures
        r@ == s@,
{
    let v = chars_of(s);
    string_of(&v)
}

/// `s` followed by `t`.
pub fn concat(s: &str, t: &str) -> (r: String)
    ensures
        r@ == s@ + t@,
{
    let mut r = owned(s);
    let tv = chars_of(t);
    let mut i: usize = 0;
    while i < tv.len()
        invariant
            i <= tv@.len(),
            tv@ == t@,
            r@ == s@ + tv@.take(i as int),
        decreases tv@.len() - i,
    {
        push_char(&mut r, tv[i]);
        assert(tv@.take(i + 1) == tv@.take(i as int).push(tv@[i as int]));
        i = i + 1;
    }
    assert(tv@.take(tv@.len() as int) == tv@);
    r
}

/// Whether two strings hold the same characters.
pub fn same_text(a: &str, b: &str) -> (r: bool)
    ensures
        r == (a@ == b@),
{
    let av = chars_of(a);
    let bv = chars_of(b);
    if av.len() != bv.len() {
        return false;
    }
    let mut i: usize = 0;
    while i < av.len()
        invariant
            i <= av@.len(),
            av@.len() == bv@.len(),
            av@ == a@,
            bv@ == b@,
            forall|j: int| 0 <= j < i ==> av@[j] == bv@[j],
        decreases av@.len() - i,
    {
        if av[i] != bv[i] {
            return false;
        }
        i = i + 1;
    }
    assert(av@ == bv@);
    true
}

/// Whether `p` occurs in `s` at index `i`.
pub fn matches_at_exec(s: &Vec<char>, p: &Vec<char>, i: usize) -> (r: bool)
    ensures
        r == matches_at(s@, p@, i as int),
{
    if i > s.len() || p.len() > s.len() - i {
        return false;
    }
    let sl = s.len();
    let mut j: usize = 0;
    while j < p.len()
        invariant
            sl == s@.len(),
            i + p@.len() <= s@.len(),
            j <= p@.len(),
            forall|k: int| 0 <= k < j ==> s@[i + k] == p@[k],
        decreases p@.len() - j,
    {
        if s[i + j] != p[j] {
            assert(s@.subrange(i as int, i + p@.len())[j as int] != p@[j as int]);
            return false;
        }
        j = j + 1;
    }
    assert(s@.subrange(i as int, i + p@.len()) == p@);
    true
}

/// The leftmost index where `p` occurs in `s`.
pub fn find(s: &Vec<char>, p: &Vec<char>) -> (r: Option<usize>)
    ensures
        match r {
            Some(k) => first_match(s@, p@) == Some(k as int),
            None => first_match(s@, p@) is None,
        },
{
    let n = s.len();
    let m = p.len();
    if m > n {
        return None;
    }
    let mut i: usize = 0;
    while i <= n - m
        invariant
            n == s@.len(),
            m == p@.len(),
            m <= n,
            i <= n - m + 1,
            first_match_from(s@, p@, 0) == first_match_from(s@, p@, i as int),
        decreases n - m + 1 - i,
    {
        if matches_at_exec(s, p, i) {
            return Some(i);
        }
        assert(m == 0 ==> s@.subrange(i as int, i as int) =~= p@);
        assert(first_match_from(s@, p@, i as int) == first_match_from(s@, p@, i + 1));
        i = i + 1;
    }
    assert(first_match_from(s@, p@, i as int) is None);
    None
}

/// Whether `p` occurs in `s`.
pub fn contains_text(s: &str, p: &str) -> (r: bool)
    ensures
        r == contains(s@, p@),
{
    let sv = chars_of(s);
    let pv = chars_of(p);
    find(&sv, &pv).is_some()
}

/// Whether `s` begins with `p`.
pub fn starts_with_text(s: &str, p: &str) -> (r: bool)
    ensures
        r == starts_with(s@, p@),
{
    let sv = chars_of(s);
    let pv = chars_of(p);
    if pv.len() > sv.len() {
        return false;
    }
    let m = matches_at_exec(&sv, &pv, 0);
    assert(sv@.subrange(0, pv@.len() as int) == sv@.take(pv@.len() as int));
    m
}

/// Whether `s` ends with `p`.
pub fn ends_with_text(s: &str, p: &str) -> (r: bool)
    ensures
        r == ends_with(s@, p@),
{
    let sv = chars_of(s);
    let pv = chars_of(p);
    if pv.len() > sv.len() {
        return false;
    }
    let m = matches_at_exec(&sv, &pv, sv.len() - pv.len());
    assert(sv@.subrange(sv@.len() - pv@.len(), sv@.len() as int) == sv@.skip(sv@.len() - pv@.len()));
    m
}

/// `s` without the prefix `p`, when it begins with `p`.
pub fn strip_prefix_text(s: &str, p: &str) -> (r: Option<String>)
    ensures
        match r {
            Some(t) => starts_with(s@, p@) && t@ == s@.skip(p@.len() as int),
            None => !starts_with(s@, p@),
        },
{
    let sv = chars_of(s);
    let pv = chars_of(p);
    if pv.len() > sv.len() {
        return None;
    }
    if matches_at_exec(&sv, &pv, 0) {
        assert(sv@.subrange(0, pv@.len() as int) == sv@.take(pv@.len() as int));
        let t = string_from(&sv, pv.len(), sv.len());
        assert(sv@.subrange(pv@.len() as int, sv@.len() as int) == sv@.skip(pv@.len() as int));
        Some(t)
    } else {
        assert(sv@.subrange(0, pv@.len() as int) == sv@.take(pv@.len() as int));
        None
    }
}

/// `s` with its first occurrence of `p` replaced by `w`.
pub fn replace_first_text(s: &str, p: &str, w: &str) -> (r: String)
    ensures
        r@ == replace_first(s@, p@, w@),
{
    let sv = chars_of(s);
    let pv = chars_of(p);
    match find(&sv, &pv) {
        Some(k) => {
            proof {
                lemma_first_match(sv@, pv@);
            }
            let n = sv.len();
            assert(k + pv@.len() <= n);
            let head = string_from(&sv, 0, k);
            let tail = string_from(&sv, k + pv.len(), sv.len());
            let hw = concat(head.as_str(), w);
            let r = concat(hw.as_str(), tail.as_str());
            assert(sv@.subrange(0, k as int) == sv@.take(k as int));
            assert(sv@.subrange(k + pv@.len(), sv@.len() as int) == sv@.skip(k + pv@.len()));
            r
        },
        None => owned(s),
    }
}

/// The part of `s` before the first occurrence of `p`, or all of `s`.
pub fn before_first_text(s: &str, p: &str) -> (r: String)
    ensures
        r@ == before_first(s@, p@),
{
    let sv = chars_of(s);
    let pv = chars_of(p);
    match find(&sv, &pv) {
        Some(k) => {
            proof {
                lemma_first_match(sv@, pv@);
            }
            let r = string_from(&sv, 0, k);
            assert(sv@.subrange(0, k as int) == sv@.take(k as int));
            r
        },
        None => owned(s),
    }
}

/// The part of `s` after the first occurrence of `p`.
pub fn after_first_text(s: &str, p: &str) -> (r: Option<String>)
    ensures
        match r {
            Some(t) => after_first(s@, p@) == Some(t@),
            None => after_first(s@, p@) is None,
        },
{
    let sv = chars_of(s);
    let pv = chars_of(p);
    match find(&sv, &pv) {
        Some(k) => {
            proof {
                lemma_first_match(sv@, pv@);
            }
            let n = sv.len();
            assert(k + pv@.len() <= n);
            let r = string_from(&sv, k + pv.len(), sv.len());
            assert(sv@.subrange(k + pv@.len(), sv@.len() as int) == sv@.skip(k + pv@.len()));
            Some(r)
        },
        None => None,
    }
}

/// Whether `c` has the Unicode White_Space property (what `char::is_whitespace` tests).
pub fn is_white_space_char(c: char) -> (r: bool)
    ensures
        r == is_white_space(c),
{
    let u = c as u32;
    (0x9 <= u && u <= 0xd) || u == 0x20 || u == 0x85 || u == 0xa0 || u == 0x1680 || (0x2000 <= u
        && u <= 0x200a) || u == 0x2028 || u == 0x2029 || u == 0x202f || u == 0x205f || u == 0x3000
}

proof fn lemma_trim_start_skip(s: Seq<char>, i: int)
    requires
        0 <= i < s.len(),
        is_white_space(s[i]),
    ensures
        trim_start(s.skip(i)) == trim_start(s.skip(i + 1)),
{
    assert(s.skip(i).drop_first() == s.skip(i + 1));
}

proof fn lemma_trim_end_take(s: Seq<char>, j: int)
    requires
        0 < j <= s.len(),
        is_white_space(s[j - 1]),
    ensures
        trim_end(s.take(j)) == trim_end(s.take(j - 1)),
{
    assert(s.take(j).drop_last() == s.take(j - 1));
}

/// `s` without leading and trailing white space.
pub fn trim_text(s: &str) -> (r: String)
    ensures
        r@ == trim(s@),
{
    let sv = chars_of(s);
    let n = sv.len();
    let mut i: usize = 0;
    assert(sv@.skip(0) == sv@);
    while i < n && is_white_space_char(sv[i])
        invariant
            i <= n == sv@.len(),
            trim_start(sv@) == trim_start(sv@.skip(i as int)),
        decreases n - i,
    {
        proof {
            lemma_trim_start_skip(sv@, i as int);
        }
        i = i + 1;
    }
    let ghost rest = sv@.skip(i as int);
    assert(trim_start(rest) == rest);
    let mut j: usize = n;
    assert(rest.take(rest.len() as int) == rest);
    while j > i && is_white_space_char(sv[j - 1])
        invariant
            i <= j <= n == sv@.len(),
            rest == sv@.skip(i as int),
            trim_end(rest) == trim_end(rest.take(j - i)),
        decreases j,
    {
        proof {
            lemma_trim_end_take(rest, j - i);
        }
        j = j - 1;
    }
    assert(trim_end(rest.take(j - i)) == rest.take(j - i));
    let r = string_from(&sv, i, j);
    assert(sv@.subrange(i as int, j as int) == rest.take(j - i));
    r
}

/// `s` with every space replaced by an underscore (what `s.replace(' ', "_")` gives).
pub fn underscore_spaces(s: &str) -> (r: String)
    ensures
        r@ == spaces_to_underscores(s@),
{
    let sv = chars_of(s);
    let mut out: Vec<char> = Vec::new();
    let mut i: usize = 0;
    while i < sv.len()
        invariant
            i <= sv@.len(),
            out@ == spaces_to_underscores(sv@).take(i as int),
        decreases sv@.len() - i,
    {
        let c = sv[i];
        if c == ' ' {
            out.push('_');
        } else {
            out.push(c);
        }
        assert(spaces_to_underscores(sv@).take(i + 1) == spaces_to_underscores(sv@).take(
            i as int,
        ).push(spaces_to_underscores(sv@)[i as int]));
        i = i + 1;
    }
    assert(spaces_to_underscores(sv@).take(sv@.len() as int) == spaces_to_underscores(sv@));
    string_of(&out)
}

fn digit(d: usize) -> (c: char)
    requires
        d < 10,
    ensures
        c == digit_char(d as nat),
{
    if d == 0 { '0' }
    else if d == 1 { '1' }
    else if d == 2 { '2' }
    else if d == 3 { '3' }
    else if d == 4 { '4' }
    else if d == 5 { '5' }
    else if d == 6 { '6' }
    else if d == 7 { '7' }
    else if d == 8 { '8' }
    else { '9' }
}

/// The decimal digits of `n`.
pub fn decimal_text(n: usize) -> (r: String)
    ensures
        r@ == decimal(n as nat),
{
    let mut digits: Vec<char> = Vec::new();
    let mut m = n;
    // digits holds the last digits of n, least significant first
    while m >= 10
        invariant
            decimal(n as nat) == decimal(m as nat) + digits@.reverse(),
        decreases m,
    {
        let d = digit(m % 10);
        proof {
            assert(decimal(m as nat) == decimal((m / 10) as nat).push(digit_char((m % 10) as nat)));
            assert(digits@.push(d).reverse() == seq![d] + digits@.reverse());
        }
        digits.push(d);
        m = m / 10;
    }
    let first = digit(m);
    let mut out: Vec<char> = Vec::new();
    out.push(first);
    let mut k = digits.len();
    assert(digits@.reverse().take(0) == Seq::<char>::empty());
    while k > 0
        invariant
            k <= digits@.len(),
            out@ == seq![first] + digits@.reverse().take(digits@.len() - k),
        decreases k,
    {
        out.push(digits[k - 1]);
        proof {
            let rv = digits@.reverse();
            assert(rv[digits@.len() - k] == digits@[k - 1]);
            assert(rv.take(digits@.len() - k + 1) == rv.take(digits@.len() - k).push(
                digits@[k - 1],
            ));
        }
        k = k - 1;
    }
    assert(digits@.reverse().take(digits@.len() as int) == digits@.reverse());
    assert(decimal(m as nat) == seq![first]);
    string_of(&out)
}

} // verus!
