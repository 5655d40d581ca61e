//! Character-level text helpers shared by the path, report and remote-URL logic.
//!
//! Strings are modelled by their view, a `Seq<char>`; every helper here states its
//! result over that view.
use vstd::prelude::*;

verus! {

// ---------------------------------------------------------------------------
// Specifications
// ---------------------------------------------------------------------------

/// The decimal digit character for `d` (expected in `0..10`).
pub open spec fn digit_char(d: nat) -> char {
    if d == 0 {
        '0'
    } else if d == 1 {
        '1'
    } else if d == 2 {
        '2'
    } else if d == 3 {
        '3'
    } else if d == 4 {
        '4'
    } else if d == 5 {
        '5'
    } else if d == 6 {
        '6'
    } else if d == 7 {
        '7'
    } else if d == 8 {
        '8'
    } else {
        '9'
    }
}

/// The decimal notation of `n`, without sign or leading zeros (as `Display` prints integers).
pub open spec fn decimal(n: nat) -> Seq<char>
    decreases n,
{
    if n < 10 {
        seq![digit_char(n)]
    } else {
        decimal(n / 10).push(digit_char(n % 10))
    }
}

/// `lines` joined with a newline between consecutive lines.
pub open spec fn join_lines(lines: Seq<Seq<char>>) -> Seq<char>
    decreases lines.len(),
{
    if lines.len() == 0 {
        Seq::empty()
    } else if lines.len() == 1 {
        lines[0]
    } else {
        join_lines(lines.drop_last()) + seq!['\n'] + lines.last()
    }
}

/// Whether `pat` occurs in `s` starting at index `i`.
pub open spec fn occurs_at(s: Seq<char>, pat: Seq<char>, i: int) -> bool {
    &&& 0 <= i
    &&& i + pat.len() <= s.len()
    &&& s.subrange(i, i + pat.len()) == pat
}

/// The first index `>= i` at which `pat` occurs in `s`.
pub open spec fn find_from(s: Seq<char>, pat: Seq<char>, i: int) -> Option<int>
    decreases s.len() + 1 - i,
{
    if i < 0 || i + pat.len() > s.len() {
        None
    } else if occurs_at(s, pat, i) {
        Some(i)
    } else {
        find_from(s, pat, i + 1)
    }
}

/// The first index at which `pat` occurs in `s`.
pub open spec fn find(s: Seq<char>, pat: Seq<char>) -> Option<int> {
    find_from(s, pat, 0)
}

/// Whether `pat` occurs anywhere in `s` (`str::contains`).
pub open spec fn contains_text(s: Seq<char>, pat: Seq<char>) -> bool {
    find(s, pat) is Some
}

proof fn lemma_find_from_bounds(s: Seq<char>, pat: Seq<char>, i: int)
    ensures
        find_from(s, pat, i) matches Some(j) ==> i <= j && 0 <= j && j + pat.len() <= s.len()
            && occurs_at(s, pat, j),
    decreases s.len() + 1 - i,
{
    if !(i < 0 || i + pat.len() > s.len()) && !occurs_at(s, pat, i) {
        lemma_find_from_bounds(s, pat, i + 1);
    }
}

/// Where `find` finds `pat`, it lies within `s`.
pub proof fn lemma_find_bounds(s: Seq<char>, pat: Seq<char>)
    ensures
        find(s, pat) matches Some(j) ==> 0 <= j && j + pat.len() <= s.len() && occurs_at(s, pat, j),
{
    lemma_find_from_bounds(s, pat, 0);
}

/// Where `pat` occurs at `k` and at no index in `i..k`, the search from `i` finds `k`.
pub proof fn lemma_find_from_first(s: Seq<char>, pat: Seq<char>, i: int, k: int)
    requires
        0 <= i <= k,
        occurs_at(s, pat, k),
        forall|j: int| i <= j < k ==> !#[trigger] occurs_at(s, pat, j),
    ensures
        find_from(s, pat, i) == Some(k),
    decreases k - i,
{
    if i < k {
        assert(!occurs_at(s, pat, i));
        lemma_find_from_first(s, pat, i + 1, k);
    }
}

/// Where `pat` occurs at no index from `i` on, the search from `i` finds nothing.
pub proof fn lemma_find_from_absent(s: Seq<char>, pat: Seq<char>, i: int)
    requires
        0 <= i,
        forall|j: int| i <= j ==> !#[trigger] occurs_at(s, pat, j),
    ensures
        find_from(s, pat, i) is None,
    decreases s.len() + 1 - i,
{
    if i + pat.len() <= s.len() {
        assert(!occurs_at(s, pat, i));
        lemma_find_from_absent(s, pat, i + 1);
    }
}

/// Where `pat` occurs at `k >= i`, the search from `i` finds something.
pub proof fn lemma_find_from_some(s: Seq<char>, pat: Seq<char>, i: int, k: int)
    requires
        0 <= i <= k,
        occurs_at(s, pat, k),
    ensures
        find_from(s, pat, i) is Some,
    decreases k - i,
{
    if i < k && !occurs_at(s, pat, i) {
        lemma_find_from_some(s, pat, i + 1, k);
    }
}

/// A pattern holding a character that `s` lacks occurs nowhere in `s`.
pub proof fn lemma_absent_char(s: Seq<char>, pat: Seq<char>, m: int)
    requires
        0 <= m < pat.len(),
        forall|k: int| 0 <= k < s.len() ==> s[k] != pat[m],
    ensures
        forall|j: int| !#[trigger] occurs_at(s, pat, j),
{
    assert forall|j: int| !#[trigger] occurs_at(s, pat, j) by {
        if occurs_at(s, pat, j) {
            assert(s.subrange(j, j + pat.len())[m] == pat[m]);
        }
    }
}

/// Whether `s` ends with `suf` (`str::ends_with`).
pub open spec fn ends_with(s: Seq<char>, suf: Seq<char>) -> bool {
    suf.len() <= s.len() && s.skip(s.len() - suf.len()) == suf
}

/// Whether `s` begins with `p` (`str::starts_with`).
pub open spec fn starts_with(s: Seq<char>, p: Seq<char>) -> bool {
    p.len() <= s.len() && s.take(p.len() as int) == p
}

/// The first piece of `s` split at `pat` (`s.split(pat).next()`).
pub open spec fn first_piece(s: Seq<char>, pat: Seq<char>) -> Seq<char> {
    match find(s, pat) {
        Some(i) => s.take(i),
        None => s,
    }
}

/// The second piece of `s` split at `pat` (`s.split(pat).nth(1)`): `None` when `pat`
/// does not occur.
pub open spec fn second_piece(s: Seq<char>, pat: Seq<char>) -> Option<Seq<char>> {
    match find(s, pat) {
        Some(i) => {
            let rest = s.skip(i + pat.len());
            Some(first_piece(rest, pat))
        },
        None => None,
    }
}

/// `s` with every repetition of the suffix `suf` removed from its end
/// (`str::trim_end_matches` with a non-empty string pattern).
pub open spec fn strip_suffixes(s: Seq<char>, suf: Seq<char>) -> Seq<char>
    decreases s.len(),
{
    if suf.len() > 0 && suf.len() <= s.len() && s.skip(s.len() - suf.len()) == suf {
        strip_suffixes(s.take(s.len() - suf.len()), suf)
    } else {
        s
    }
}

/// Unicode `White_Space`, the property that `char::is_whitespace` tests.
pub open spec fn is_white_space(c: char) -> bool {
    let u = c as u32;
    ||| 0x09 <= u <= 0x0d
    ||| u == 0x20
    ||| u == 0x85
    ||| u == 0xa0
    ||| u == 0x1680
    ||| 0x2000 <= u <= 0x200a
    ||| u == 0x2028
    ||| u == 0x2029
    ||| u == 0x202f
    ||| u == 0x205f
    ||| u == 0x3000
}

/// `s` without its leading white space.
pub open spec fn trim_start_ws(s: Seq<char>) -> Seq<char>
    decreases s.len(),
{
    if s.len() > 0 && is_white_space(s[0]) {
        trim_start_ws(s.drop_first())
    } else {
        s
    }
}

/// `s` without its trailing white space.
pub open spec fn trim_end_ws(s: Seq<char>) -> Seq<char>
    decreases s.len(),
{
    if s.len() > 0 && is_white_space(s.last()) {
        trim_end_ws(s.drop_last())
    } else {
        s
    }
}

/// `s` without leading and trailing white space (`str::trim`).
pub open spec fn trim_ws(s: Seq<char>) -> Seq<char> {
    trim_end_ws(trim_start_ws(s))
}

/// `c` with ASCII upper-case letters mapped to lower case (`char::to_ascii_lowercase`).
pub open spec fn ascii_lower(c: char) -> char {
    if 'A' as u32 <= c as u32 <= 'Z' as u32 {
        ((c as u32 + 32) as u8) as char
    } else {
        c
    }
}

/// `s` with every character mapped by `ascii_lower` (`str::to_ascii_lowercase`).
pub open spec fn ascii_lowercase(s: Seq<char>) -> Seq<char> {
    s.map_values(|c: char| ascii_lower(c))
}

/// The views of a sequence of strings.
pub open spec fn views(v: Seq<String>) -> Seq<Seq<char>> {
    v.map_values(|s: String| s@)
}

// ---------------------------------------------------------------------------
// Executable helpers
// ---------------------------------------------------------------------------

/// Appends one character to a string (`String::push`).
#[verifier::external_body]
pub(crate) fn push_char(s: &mut String, c: char)
    ensures
        final(s)@ == old(s)@.push(c),
{
    s.push(c);
}

/// Decodes UTF-8 bytes into a string (`String::from_utf8`); `None` when the bytes are
/// not valid UTF-8.
#[verifier::external_body]
pub(crate) fn string_from_utf8(bytes: Vec<u8>) -> (res: Option<String>)
    ensures
        res is Some <==> vstd::utf8::valid_utf8(bytes@),
        res matches Some(s) ==> s@ == vstd::utf8::decode_utf8(bytes@),
{
    match String::from_utf8(bytes) {
        Ok(s) => Some(s),
        Err(_) => None,
    }
}

/// The characters of `s`, in order.
pub fn chars_of(s: &str) -> (v: Vec<char>)
    ensures
        v@ == s@,
{
    let mut v: Vec<char> = Vec::new();
    for c in it: s.chars()
        invariant
            v@ == it.seq().take(it.index() as int),
            it.seq() == s@,
    {
        v.push(c);
    }
    v
}

/// The characters `v[from..to]` as a string.
pub fn string_from_range(v: &Vec<char>, from: usize, to: usize) -> (s: String)
    requires
        from <= to <= v.len(),
    ensures
        s@ == v@.subrange(from as int, to as int),
{
    let mut s = String::new();
    let mut i = from;
    while i < to
        invariant
            from <= i <= to <= v.len(),
            s@ == v@.subrange(from as int, i as int),
        decreases to - i,
    {
        push_char(&mut s, v[i]);
        assert(v@.subrange(from as int, i + 1) == v@.subrange(from as int, i as int).push(v@[i as int]));
        i = i + 1;
    }
    s
}

/// The characters of `v` as a string.
pub fn string_from_chars(v: &Vec<char>) -> (s: String)
    ensures
        s@ == v@,
{
    let s = string_from_range(v, 0, v.len());
    assert(v@.subrange(0, v@.len() as int) == v@);
    s
}

/// Appends `t` to `s`.
pub fn append_string(s: &mut String, t: &String)
    ensures
        final(s)@ == old(s)@ + t@,
{
    s.append(t.as_str());
}

/// Whether two strings hold the same characters.
pub fn text_eq(a: &str, b: &str) -> (r: bool)
    ensures
        r == (a@ == b@),
{
    let va = chars_of(a);
    let vb = chars_of(b);
    if va.len() != vb.len() {
        return false;
    }
    let mut i: usize = 0;
    while i < va.len()
        invariant
            va@ == a@,
            vb@ == b@,
            va.len() == vb.len(),
            i <= va.len(),
            forall|k: int| 0 <= k < i ==> va@[k] == vb@[k],
        decreases va.len() - i,
    {
        if va[i] != vb[i] {
            return false;
        }
        i = i + 1;
    }
    assert(va@ =~= vb@);
    true
}

/// The decimal digit character for `d`.
fn digit_of(d: u64) -> (c: char)
    requires
        d < 10,
    ensures
        c == digit_char(d as nat),
{
    if d == 0 {
        '0'
    } else if d == 1 {
        '1'
    } else if d == 2 {
        '2'
    } else if d == 3 {
        '3'
    } else if d == 4 {
        '4'
    } else if d == 5 {
        '5'
    } else if d == 6 {
        '6'
    } else if d == 7 {
        '7'
    } else if d == 8 {
        '8'
    } else {
        '9'
    }
}

/// The decimal notation of `n` (as `n.to_string()` prints it).
pub fn decimal_string(n: u64) -> (s: String)
    ensures
        s@ == decimal(n as nat),
{
    let mut x = n;
    let mut low: Vec<char> = Vec::new();
    while x >= 10
        invariant
            decimal(n as nat) == decimal(x as nat) + low@,
        decreases x,
    {
        let d = digit_of(x % 10);
        let ghost old_low = low@;
        low.insert(0, d);
        proof {
            assert(low@ =~= seq![d] + old_low);
            assert(decimal(x as nat) == decimal((x / 10) as nat).push(d));
            assert(decimal((x / 10) as nat) + low@ =~= decimal(x as nat) + old_low);
        }
        x = x / 10;
    }
    let mut digits: Vec<char> = Vec::new();
    digits.push(digit_of(x));
    let mut i: usize = 0;
    while i < low.len()
        invariant
            i <= low.len(),
            digits@ == seq![digit_char(x as nat)] + low@.take(i as int),
        decreases low.len() - i,
    {
        digits.push(low[i]);
        assert(low@.take(i + 1) == low@.take(i as int).push(low@[i as int]));
        i = i + 1;
    }
    assert(low@.take(low.len() as int) == low@);
    string_from_chars(&digits)
}

/// Joins `lines` with a newline between consecutive lines (`lines.join("\n")`).
pub fn join_with_newlines(lines: &Vec<String>) -> (s: String)
    ensures
        s@ == join_lines(views(lines@)),
{
    let mut s = String::new();
    let mut i: usize = 0;
    while i < lines.len()
        invariant
            i <= lines.len(),
            s@ == join_lines(views(lines@.take(i as int))),
        decreases lines.len() - i,
    {
        let ghost before = lines@.take(i as int);
        assert(lines@.take(i + 1).drop_last() == before);
        if i > 0 {
            s.append("\n");
            proof {
                assert(seq!['\n'] == "\n"@) by {
                    reveal_strlit("\n");
                }
            }
        }
        append_string(&mut s, &lines[i]);
        proof {
            assert(views(lines@.take(i + 1)).drop_last() == views(before));
            assert(views(lines@.take(i + 1)).last() == lines@[i as int]@);
            if i == 0 {
                assert(views(lines@.take(1)).len() == 1);
            }
        }
        i = i + 1;
    }
    assert(lines@.take(lines.len() as int) == lines@);
    s
}

/// Whether `pat` occurs in `s` at index `i`.
pub fn occurs_at_exec(s: &Vec<char>, pat: &Vec<char>, i: usize) -> (r: bool)
    ensures
        r == occurs_at(s@, pat@, i as int),
{
    if i > s.len() || pat.len() > s.len() - i {
        return false;
    }
    let mut k: usize = 0;
    while k < pat.len()
        invariant
            i + pat.len() <= s.len(),
            k <= pat.len(),
            forall|m: int| 0 <= m < k ==> s@[i + m] == pat@[m],
        decreases pat.len() - k,
    {
        if s[i + k] != pat[k] {
            assert(s@.subrange(i as int, i + pat.len())[k as int] != pat@[k as int]);
            return false;
        }
        k = k + 1;
    }
    assert(s@.subrange(i as int, i + pat.len()) =~= pat@);
    true
}

/// The first index `>= from` at which `pat` occurs in `s`.
pub fn find_from_exec(s: &Vec<char>, pat: &Vec<char>, from: usize) -> (r: Option<usize>)
    ensures
        r matches Some(i) ==> find_from(s@, pat@, from as int) == Some(i as int),
        r is None ==> find_from(s@, pat@, from as int) is None,
{
    if pat.len() > s.len() || from > s.len() - pat.len() {
        return None;
    }
    let last = s.len() - pat.len();
    let mut i = from;
    loop
        invariant
            from <= i <= last,
            last + pat.len() == s.len(),
            find_from(s@, pat@, from as int) == find_from(s@, pat@, i as int),
        decreases last - i,
    {
        if occurs_at_exec(s, pat, i) {
            return Some(i);
        }
        if i == last {
            assert(find_from(s@, pat@, i + 1) is None);
            return None;
        }
        i = i + 1;
    }
}

/// The first index at which `pat` occurs in `s`.
pub fn find_exec(s: &Vec<char>, pat: &Vec<char>) -> (r: Option<usize>)
    ensures
        r matches Some(i) ==> find(s@, pat@) == Some(i as int),
        r is None ==> find(s@, pat@) is None,
{
    find_from_exec(s, pat, 0)
}

/// Whether `c` is Unicode white space (`char::is_whitespace`).
pub fn is_white_space_exec(c: char) -> (r: bool)
    ensures
        r == is_white_space(c),
{
    let u = c as u32;
    (0x09 <= u && u <= 0x0d) || u == 0x20 || u == 0x85 || u == 0xa0 || u == 0x1680 || (0x2000
        <= u && u <= 0x200a) || u == 0x2028 || u == 0x2029 || u == 0x202f || u == 0x205f || u
        == 0x3000
}

proof fn lemma_trim_start_skip(s: Seq<char>, i: int)
    requires
        0 <= i <= s.len(),
        forall|k: int| 0 <= k < i ==> is_white_space(#[trigger] s[k]),
    ensures
        trim_start_ws(s) == trim_start_ws(s.skip(i)),
    decreases i,
{
    if i > 0 {
        lemma_trim_start_skip(s, i - 1);
        let t = s.skip(i - 1);
        assert(t[0] == s[i - 1]);
        assert(t.drop_first() =~= s.skip(i));
    } else {
        assert(s.skip(0) =~= s);
    }
}

proof fn lemma_trim_end_take(s: Seq<char>, j: int)
    requires
        0 <= j <= s.len(),
        forall|k: int| j <= k < s.len() ==> is_white_space(#[trigger] s[k]),
    ensures
        trim_end_ws(s) == trim_end_ws(s.take(j)),
    decreases s.len() - j,
{
    if j < s.len() {
        lemma_trim_end_take(s, j + 1);
        let t = s.take(j + 1);
        assert(t.last() == s[j]);
        assert(t.drop_last() =~= s.take(j));
    } else {
        assert(s.take(j) =~= s);
    }
}

/// `s` without leading and trailing white space (`s.trim().to_string()`).
pub fn trim_whitespace(s: &str) -> (r: String)
    ensures
        r@ == trim_ws(s@),
{
    let v = chars_of(s);
    let mut i: usize = 0;
    while i < v.len() && is_white_space_exec(v[i])
        invariant
            v@ == s@,
            i <= v.len(),
            forall|k: int| 0 <= k < i ==> is_white_space(#[trigger] v@[k]),
        decreases v.len() - i,
    {
        i = i + 1;
    }
    proof {
        lemma_trim_start_skip(v@, i as int);
    }
    let mut j: usize = v.len();
    while j > i && is_white_space_exec(v[j - 1])
        invariant
            v@ == s@,
            i <= j <= v.len(),
            forall|k: int| j <= k < v.len() ==> is_white_space(#[trigger] v@[k]),
        decreases j,
    {
        j = j - 1;
    }
    proof {
        let t = v@.skip(i as int);
        assert(trim_start_ws(t) == t) by {
            if t.len() > 0 {
                assert(t[0] == v@[i as int]);
            }
        }
        let m = j - i;
        assert forall|k: int| m <= k < t.len() implies is_white_space(#[trigger] t[k]) by {
            assert(t[k] == v@[i + k]);
        }
        lemma_trim_end_take(t, m as int);
        assert(t.take(m as int) =~= v@.subrange(i as int, j as int));
        assert(trim_end_ws(t.take(m as int)) == t.take(m as int)) by {
            if m > 0 {
                assert(t.take(m as int).last() == v@[j - 1]);
            }
        }
    }
    string_from_range(&v, i, j)
}

/// `c` with ASCII upper-case letters mapped to lower case.
pub fn ascii_lower_exec(c: char) -> (r: char)
    ensures
        r == ascii_lower(c),
{
    let u = c as u32;
    if 'A' as u32 <= u && u <= 'Z' as u32 {
        ((u + 32) as u8) as char
    } else {
        c
    }
}

} // verus!
