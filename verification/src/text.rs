//! Character-level text helpers shared by the presentation models.
//!
//! Every helper works on the Unicode scalar values of a string (`s@`), which
//! is the level at which the presentation copy is defined.

use vstd::prelude::*;

verus! {

/// Unicode `White_Space`, the set `char::is_whitespace` accepts.
pub open spec fn is_ws(c: char) -> bool {
    let u = c as u32;
    ||| 0x09 <= u <= 0x0D
    ||| u == 0x20
    ||| u == 0x85
    ||| u == 0xA0
    ||| u == 0x1680
    ||| 0x2000 <= u <= 0x200A
    ||| u == 0x2028
    ||| u == 0x2029
    ||| u == 0x202F
    ||| u == 0x205F
    ||| u == 0x3000
}

/// Number of whitespace characters at the start of `s`.
pub open spec fn lead_ws(s: Seq<char>) -> nat
    decreases s.len(),
{
    if s.len() == 0 || !is_ws(s[0]) {
        0
    } else {
        1 + lead_ws(s.drop_first())
    }
}

/// Number of whitespace characters at the end of `s`.
pub open spec fn trail_ws(s: Seq<char>) -> nat
    decreases s.len(),
{
    if s.len() == 0 || !is_ws(s.last()) {
        0
    } else {
        1 + trail_ws(s.drop_last())
    }
}

pub open spec fn trim_start(s: Seq<char>) -> Seq<char> {
    s.subrange(lead_ws(s) as int, s.len() as int)
}

pub open spec fn trim_end(s: Seq<char>) -> Seq<char> {
    s.subrange(0, s.len() - trail_ws(s))
}

pub open spec fn trim(s: Seq<char>) -> Seq<char> {
    trim_end(trim_start(s))
}

/// `s` holds nothing but whitespace (`s.trim().is_empty()`).
pub open spec fn is_blank(s: Seq<char>) -> bool {
    forall|i: int| 0 <= i < s.len() ==> is_ws(#[trigger] s[i])
}

/// The characters of an optional string slice.
pub open spec fn opt_chars(o: Option<&str>) -> Option<Seq<char>> {
    match o {
        Some(s) => Some(s@),
        None => None,
    }
}

/// The characters of an optional owned string.
pub open spec fn opt_string(o: Option<String>) -> Option<Seq<char>> {
    match o {
        Some(s) => Some(s@),
        None => None,
    }
}

pub open spec fn starts_with(s: Seq<char>, p: Seq<char>) -> bool {
    p.len() <= s.len() && s.subrange(0, p.len() as int) == p
}

pub open spec fn ends_with(s: Seq<char>, p: Seq<char>) -> bool {
    p.len() <= s.len() && s.subrange(s.len() - p.len(), s.len() as int) == p
}

/// `p` occurs in `s` starting at index `i`.
pub open spec fn occurs_at(s: Seq<char>, p: Seq<char>, i: int) -> bool {
    0 <= i && i + p.len() <= s.len() && s.subrange(i, i + p.len()) == p
}

/// The first index at or after `i` where `p` occurs in `s`.
pub open spec fn find_from(s: Seq<char>, p: Seq<char>, i: int) -> Option<int>
    decreases s.len() + 1 - i,
{
    if i < 0 || i + p.len() > s.len() {
        None
    } else if occurs_at(s, p, i) {
        Some(i)
    } else {
        find_from(s, p, i + 1)
    }
}

/// `str::find`: the first index where `p` occurs in `s`.
pub open spec fn find(s: Seq<char>, p: Seq<char>) -> Option<int> {
    find_from(s, p, 0)
}

pub proof fn lemma_find_from_found(s: Seq<char>, p: Seq<char>, i0: int)
    ensures
        find_from(s, p, i0) matches Some(i) ==> i0 <= i && occurs_at(s, p, i),
    decreases s.len() + 1 - i0,
{
    if !(i0 < 0 || i0 + p.len() > s.len()) && !occurs_at(s, p, i0) {
        lemma_find_from_found(s, p, i0 + 1);
    }
}

/// Removes every leading copy of `p` (`str::trim_start_matches` with a
/// non-empty string pattern).
pub open spec fn strip_all_prefix(s: Seq<char>, p: Seq<char>) -> Seq<char>
    decreases s.len(),
{
    if p.len() > 0 && starts_with(s, p) {
        strip_all_prefix(s.subrange(p.len() as int, s.len() as int), p)
    } else {
        s
    }
}

/// Removes every leading character for which `c` holds.
pub open spec fn strip_leading_char(s: Seq<char>, c: char) -> Seq<char>
    decreases s.len(),
{
    if s.len() > 0 && s[0] == c {
        strip_leading_char(s.drop_first(), c)
    } else {
        s
    }
}

/// Whitespace-separated tokens of `s` (`str::split_whitespace`).
pub open spec fn ws_tokens(s: Seq<char>) -> Seq<Seq<char>>
    decreases s.len(),
{
    let t = trim_start(s);
    if t.len() == 0 {
        seq![]
    } else {
        proof {
            lemma_lead_ws(s);
            lemma_word_len(t);
            assert(t[0] == s[lead_ws(s) as int]);
        }
        let k = word_len(t);
        seq![t.subrange(0, k as int)] + ws_tokens(t.subrange(k as int, t.len() as int))
    }
}

/// Length of the run of non-whitespace characters at the start of `s`.
pub open spec fn word_len(s: Seq<char>) -> nat
    decreases s.len(),
{
    if s.len() == 0 || is_ws(s[0]) {
        0
    } else {
        1 + word_len(s.drop_first())
    }
}

/// Joins `parts` with `sep` between neighbours.
pub open spec fn join(parts: Seq<Seq<char>>, sep: Seq<char>) -> Seq<char>
    decreases parts.len(),
{
    if parts.len() == 0 {
        seq![]
    } else if parts.len() == 1 {
        parts[0]
    } else {
        join(parts.drop_last(), sep) + sep + parts.last()
    }
}

pub open spec fn digit_char(d: nat) -> char {
    if d == 0 { '0' }
    else if d == 1 { '1' }
    else if d == 2 { '2' }
    else if d == 3 { '3' }
    else if d == 4 { '4' }
    else if d == 5 { '5' }
    else if d == 6 { '6' }
    else if d == 7 { '7' }
    else if d == 8 { '8' }
    else { '9' }
}

/// Decimal rendering of `n` without leading zeros (`n.to_string()`).
pub open spec fn decimal(n: nat) -> Seq<char>
    decreases n,
{
    if n < 10 {
        seq![digit_char(n)]
    } else {
        decimal(n / 10).push(digit_char(n % 10))
    }
}

pub proof fn lemma_lead_ws(s: Seq<char>)
    ensures
        lead_ws(s) <= s.len(),
        forall|j: int| 0 <= j < lead_ws(s) ==> is_ws(#[trigger] s[j]),
        lead_ws(s) < s.len() ==> !is_ws(s[lead_ws(s) as int]),
    decreases s.len(),
{
    if s.len() > 0 && is_ws(s[0]) {
        lemma_lead_ws(s.drop_first());
        assert forall|j: int| 0 <= j < lead_ws(s) implies is_ws(#[trigger] s[j]) by {
            if j > 0 {
                assert(s[j] == s.drop_first()[j - 1]);
            }
        }
    }
}

/// The leading-whitespace count is the unique `k` with only whitespace
/// before it and a non-whitespace character (or the end) at it.
pub proof fn lemma_lead_ws_unique(s: Seq<char>, k: int)
    requires
        0 <= k <= s.len(),
        forall|j: int| 0 <= j < k ==> is_ws(#[trigger] s[j]),
        k < s.len() ==> !is_ws(s[k]),
    ensures
        lead_ws(s) == k,
{
    lemma_lead_ws(s);
    if (lead_ws(s) as int) < k {
        assert(is_ws(s[lead_ws(s) as int]));
    }
    if (lead_ws(s) as int) > k {
        assert(is_ws(s[k]));
    }
}

pub proof fn lemma_trail_ws(s: Seq<char>)
    ensures
        trail_ws(s) <= s.len(),
        forall|j: int| s.len() - trail_ws(s) <= j < s.len() ==> is_ws(#[trigger] s[j]),
        trail_ws(s) < s.len() ==> !is_ws(s[s.len() - trail_ws(s) - 1]),
    decreases s.len(),
{
    if s.len() > 0 && is_ws(s.last()) {
        lemma_trail_ws(s.drop_last());
        assert forall|j: int| s.len() - trail_ws(s) <= j < s.len() implies is_ws(#[trigger] s[j]) by {
            if j < s.len() - 1 {
                assert(s[j] == s.drop_last()[j]);
            }
        }
        if trail_ws(s) < s.len() {
            assert(s[s.len() - trail_ws(s) - 1] == s.drop_last()[s.drop_last().len() - trail_ws(s.drop_last()) - 1]);
        }
    }
}

pub proof fn lemma_trail_ws_unique(s: Seq<char>, k: int)
    requires
        0 <= k <= s.len(),
        forall|j: int| s.len() - k <= j < s.len() ==> is_ws(#[trigger] s[j]),
        k < s.len() ==> !is_ws(s[s.len() - k - 1]),
    ensures
        trail_ws(s) == k,
{
    lemma_trail_ws(s);
    if (trail_ws(s) as int) < k {
        assert(is_ws(s[s.len() - trail_ws(s) - 1]));
    }
    if (trail_ws(s) as int) > k {
        assert(is_ws(s[s.len() - k - 1]));
    }
}

/// A string is blank exactly when trimming leaves nothing.
pub proof fn lemma_blank_iff_trim_empty(s: Seq<char>)
    ensures
        is_blank(s) <==> trim(s).len() == 0,
        is_blank(s) <==> lead_ws(s) == s.len(),
{
    lemma_lead_ws(s);
    lemma_trail_ws(trim_start(s));
    if lead_ws(s) == s.len() {
        assert(is_blank(s));
    } else {
        assert(!is_ws(s[lead_ws(s) as int]));
        assert(trim_start(s)[0] == s[lead_ws(s) as int]);
        assert(!is_ws(trim_start(s)[0]));
        if trail_ws(trim_start(s)) == trim_start(s).len() {
            assert(is_ws(trim_start(s)[0]));
        }
    }
}

pub proof fn lemma_word_len(s: Seq<char>)
    ensures
        word_len(s) <= s.len(),
        forall|j: int| 0 <= j < word_len(s) ==> !is_ws(#[trigger] s[j]),
        word_len(s) < s.len() ==> is_ws(s[word_len(s) as int]),
    decreases s.len(),
{
    if s.len() > 0 && !is_ws(s[0]) {
        lemma_word_len(s.drop_first());
        assert forall|j: int| 0 <= j < word_len(s) implies !is_ws(#[trigger] s[j]) by {
            if j > 0 {
                assert(s[j] == s.drop_first()[j - 1]);
            }
        }
    }
}

pub proof fn lemma_word_len_unique(s: Seq<char>, k: int)
    requires
        0 <= k <= s.len(),
        forall|j: int| 0 <= j < k ==> !is_ws(#[trigger] s[j]),
        k < s.len() ==> is_ws(s[k]),
    ensures
        word_len(s) == k,
{
    lemma_word_len(s);
    if (word_len(s) as int) < k {
        assert(!is_ws(s[word_len(s) as int]));
    }
    if (word_len(s) as int) > k {
        assert(!is_ws(s[k]));
    }
}

/// Every word of `ws_tokens(s)` is free of whitespace.
pub proof fn lemma_ws_tokens_are_words(s: Seq<char>)
    ensures
        forall|k: int, j: int|
            0 <= k < ws_tokens(s).len() && 0 <= j < ws_tokens(s)[k].len() ==> !is_ws(
                #[trigger] ws_tokens(s)[k][j],
            ),
    decreases s.len(),
{
    let t = trim_start(s);
    if t.len() > 0 {
        lemma_lead_ws(s);
        lemma_word_len(t);
        assert(t[0] == s[lead_ws(s) as int]);
        let w = word_len(t) as int;
        let rest = t.subrange(w, t.len() as int);
        lemma_ws_tokens_are_words(rest);
        let toks = ws_tokens(s);
        assert(toks == seq![t.subrange(0, w)] + ws_tokens(rest));
        assert forall|k: int, j: int|
            0 <= k < toks.len() && 0 <= j < toks[k].len() implies !is_ws(#[trigger] toks[k][j]) by {
            if k == 0 {
                assert(toks[0][j] == t[j]);
            } else {
                assert(toks[k] == ws_tokens(rest)[k - 1]);
            }
        }
    }
}

/// Joining whitespace-free parts with single spaces leaves no whitespace
/// but those spaces.
pub proof fn lemma_join_words_with_spaces(parts: Seq<Seq<char>>)
    requires
        forall|k: int, j: int|
            0 <= k < parts.len() && 0 <= j < parts[k].len() ==> !is_ws(#[trigger] parts[k][j]),
    ensures
        forall|i: int|
            0 <= i < join(parts, seq![' ']).len() ==> (#[trigger] join(parts, seq![' '])[i] == ' '
                || !is_ws(join(parts, seq![' '])[i])),
    decreases parts.len(),
{
    if parts.len() > 1 {
        let init = parts.drop_last();
        assert forall|k: int, j: int|
            0 <= k < init.len() && 0 <= j < init[k].len() implies !is_ws(#[trigger] init[k][j]) by {
            assert(init[k] == parts[k]);
        }
        lemma_join_words_with_spaces(init);
        let a = join(init, seq![' ']);
        let whole = join(parts, seq![' ']);
        assert(whole == a + seq![' '] + parts.last());
        assert forall|i: int| 0 <= i < whole.len() implies (#[trigger] whole[i] == ' ' || !is_ws(
            whole[i],
        )) by {
            if i < a.len() {
                assert(whole[i] == a[i]);
            } else if i == a.len() {
                assert(whole[i] == ' ');
            } else {
                assert(whole[i] == parts.last()[i - a.len() - 1]);
                assert(parts.last() == parts[parts.len() - 1]);
            }
        }
    } else if parts.len() == 1 {
        assert forall|i: int| 0 <= i < join(parts, seq![' ']).len() implies (#[trigger] join(
            parts,
            seq![' '],
        )[i] == ' ' || !is_ws(join(parts, seq![' '])[i])) by {
            assert(join(parts, seq![' '])[i] == parts[0][i]);
        }
    }
}

/// A character predicate for `char::is_whitespace`.
pub fn is_whitespace(c: char) -> (b: bool)
    ensures
        b == is_ws(c),
{
    let u = c as u32;
    (0x09 <= u && u <= 0x0D) || u == 0x20 || u == 0x85 || u == 0xA0 || u == 0x1680 || (0x2000
        <= u && u <= 0x200A) || u == 0x2028 || u == 0x2029 || u == 0x202F || u == 0x205F || u
        == 0x3000
}

/// The characters of `s`, in order.
pub fn chars_of(s: &str) -> (v: Vec<char>)
    ensures
        v@ == s@,
{
    let mut v: Vec<char> = Vec::new();
    for c in it: s.chars()
        invariant
            v@ == it.seq().take(it.index() as int),
            it.seq() == s@,
    {
        v.push(c);
    }
    v
}

/// Appends one character (`String::push`).
#[verifier::external_body]
fn push_char(s: &mut String, c: char)
    ensures
        final(s)@ == old(s)@.push(c),
{
    s.push(c);
}

/// Appends the characters `v[lo..hi]` to `s`.
pub fn append_chars(s: &mut String, v: &Vec<char>, lo: usize, hi: usize)
    requires
        lo <= hi <= v.len(),
    ensures
        final(s)@ == old(s)@ + v@.subrange(lo as int, hi as int),
{
    let mut i = lo;
    while i < hi
        invariant
            lo <= i <= hi <= v.len(),
            s@ == old(s)@ + v@.subrange(lo as int, i as int),
        decreases hi - i,
    {
        push_char(s, v[i]);
        assert(v@.subrange(lo as int, i as int).push(v@[i as int]) == v@.subrange(
            lo as int,
            i + 1,
        ));
        i += 1;
    }
}

/// A new string holding `v[lo..hi]`.
pub fn string_from(v: &Vec<char>, lo: usize, hi: usize) -> (s: String)
    requires
        lo <= hi <= v.len(),
    ensures
        s@ == v@.subrange(lo as int, hi as int),
{
    let mut s = String::new();
    append_chars(&mut s, v, lo, hi);
    s
}

/// Appends one character to a string.
pub fn append_char(s: &mut String, c: char)
    ensures
        final(s)@ == old(s)@.push(c),
{
    push_char(s, c);
}

/// Index of the first non-whitespace character of `v[lo..hi]`, or `hi`.
pub fn skip_ws(v: &Vec<char>, lo: usize, hi: usize) -> (k: usize)
    requires
        lo <= hi <= v.len(),
    ensures
        k == lo + lead_ws(v@.subrange(lo as int, hi as int)),
        lo <= k <= hi,
{
    let ghost sub = v@.subrange(lo as int, hi as int);
    let mut k = lo;
    while k < hi && is_whitespace(v[k])
        invariant
            lo <= k <= hi <= v.len(),
            sub == v@.subrange(lo as int, hi as int),
            forall|j: int| lo <= j < k ==> is_ws(#[trigger] v@[j]),
        decreases hi - k,
    {
        k += 1;
    }
    proof {
        assert forall|j: int| 0 <= j < k - lo implies is_ws(#[trigger] sub[j]) by {
            assert(sub[j] == v@[lo + j]);
        }
        if k < hi {
            assert(sub[k - lo] == v@[k as int]);
        }
        lemma_lead_ws_unique(sub, k - lo);
    }
    k
}

/// One past the last non-whitespace character of `v[lo..hi]`, or `lo`.
pub fn skip_ws_back(v: &Vec<char>, lo: usize, hi: usize) -> (k: usize)
    requires
        lo <= hi <= v.len(),
    ensures
        k == hi - trail_ws(v@.subrange(lo as int, hi as int)),
        lo <= k <= hi,
{
    let ghost sub = v@.subrange(lo as int, hi as int);
    let mut k = hi;
    while k > lo && is_whitespace(v[k - 1])
        invariant
            lo <= k <= hi <= v.len(),
            sub == v@.subrange(lo as int, hi as int),
            forall|j: int| k <= j < hi ==> is_ws(#[trigger] v@[j]),
        decreases k - lo,
    {
        k -= 1;
    }
    proof {
        assert forall|j: int| sub.len() - (hi - k) <= j < sub.len() implies is_ws(
            #[trigger] sub[j],
        ) by {
            assert(sub[j] == v@[lo + j]);
        }
        if k > lo {
            assert(sub[sub.len() - (hi - k) - 1] == v@[k - 1]);
        }
        lemma_trail_ws_unique(sub, (hi - k) as int);
    }
    k
}

/// Index just past the run of non-whitespace characters starting at `lo`.
pub fn skip_word(v: &Vec<char>, lo: usize, hi: usize) -> (k: usize)
    requires
        lo <= hi <= v.len(),
    ensures
        k == lo + word_len(v@.subrange(lo as int, hi as int)),
        lo <= k <= hi,
{
    let ghost sub = v@.subrange(lo as int, hi as int);
    let mut k = lo;
    while k < hi && !is_whitespace(v[k])
        invariant
            lo <= k <= hi <= v.len(),
            sub == v@.subrange(lo as int, hi as int),
            forall|j: int| lo <= j < k ==> !is_ws(#[trigger] v@[j]),
        decreases hi - k,
    {
        k += 1;
    }
    proof {
        assert forall|j: int| 0 <= j < k - lo implies !is_ws(#[trigger] sub[j]) by {
            assert(sub[j] == v@[lo + j]);
        }
        if k < hi {
            assert(sub[k - lo] == v@[k as int]);
        }
        lemma_word_len_unique(sub, k - lo);
    }
    k
}

/// `s.trim().is_empty()`.
pub fn is_blank_str(s: &str) -> (b: bool)
    ensures
        b == is_blank(s@),
{
    let v = chars_of(s);
    let k = skip_ws(&v, 0, v.len());
    proof {
        assert(v@.subrange(0, v@.len() as int) == v@);
        lemma_blank_iff_trim_empty(v@);
    }
    k == v.len()
}

/// `s.trim()` as an owned string.
pub fn trim_to_string(s: &str) -> (t: String)
    ensures
        t@ == trim(s@),
{
    let v = chars_of(s);
    let lo = skip_ws(&v, 0, v.len());
    let hi = skip_ws_back(&v, lo, v.len());
    proof {
        assert(v@.subrange(0, v@.len() as int) == v@);
        assert(trim_start(v@) == v@.subrange(lo as int, v@.len() as int));
    }
    string_from(&v, lo, hi)
}

/// Whether `p` occurs in `v` at index `i` (all within `v[..hi]`).
pub fn matches_at(v: &Vec<char>, hi: usize, i: usize, p: &Vec<char>) -> (b: bool)
    requires
        hi <= v.len(),
    ensures
        b == occurs_at(v@.subrange(0, hi as int), p@, i as int),
{
    let ghost s = v@.subrange(0, hi as int);
    if i > hi || p.len() > hi - i {
        return false;
    }
    let mut j: usize = 0;
    while j < p.len()
        invariant
            i + p.len() <= hi <= v.len(),
            j <= p.len(),
            s == v@.subrange(0, hi as int),
            forall|t: int| 0 <= t < j ==> v@[i + t] == p@[t],
        decreases p.len() - j,
    {
        if v[i + j] != p[j] {
            proof {
                assert(s.subrange(i as int, i + p.len())[j as int] == v@[i + j]);
            }
            return false;
        }
        j += 1;
    }
    proof {
        assert(s.subrange(i as int, i + p.len()) =~= p@);
    }
    true
}

/// The first index at or after `from` where `p` occurs in `v[..hi]`.
pub fn find_in(v: &Vec<char>, hi: usize, from: usize, p: &Vec<char>) -> (r: Option<usize>)
    requires
        hi <= v.len(),
        from <= hi,
    ensures
        r matches Some(i) ==> find_from(v@.subrange(0, hi as int), p@, from as int) == Some(
            i as int,
        ),
        r is None ==> find_from(v@.subrange(0, hi as int), p@, from as int) is None,
{
    let ghost s = v@.subrange(0, hi as int);
    if p.len() > hi - from {
        return None;
    }
    let last = hi - p.len();
    let mut i = from;
    loop
        invariant
            from <= i <= last,
            last + p.len() == hi,
            hi <= v.len(),
            s == v@.subrange(0, hi as int),
            find_from(s, p@, from as int) == find_from(s, p@, i as int),
        decreases last - i,
    {
        if matches_at(v, hi, i, p) {
            return Some(i);
        }
        if i == last {
            proof {
                assert(s.len() == hi);
                assert(find_from(s, p@, i + 1) is None);
            }
            return None;
        }
        i += 1;
    }
}

/// A copy of `v[lo..hi]`.
pub fn sub_vec(v: &Vec<char>, lo: usize, hi: usize) -> (r: Vec<char>)
    requires
        lo <= hi <= v.len(),
    ensures
        r@ == v@.subrange(lo as int, hi as int),
{
    let mut r: Vec<char> = Vec::new();
    let mut i = lo;
    while i < hi
        invariant
            lo <= i <= hi <= v.len(),
            r@ == v@.subrange(lo as int, i as int),
        decreases hi - i,
    {
        r.push(v[i]);
        proof {
            assert(v@.subrange(lo as int, i as int).push(v@[i as int]) =~= v@.subrange(
                lo as int,
                i + 1,
            ));
        }
        i += 1;
    }
    r
}

/// Whether `v` starts with the characters of `p`.
pub fn vec_starts_with(v: &Vec<char>, p: &str) -> (b: bool)
    ensures
        b == starts_with(v@, p@),
{
    let pv = chars_of(p);
    if pv.len() > v.len() {
        return false;
    }
    let mut i: usize = 0;
    while i < pv.len()
        invariant
            pv@ == p@,
            pv.len() <= v.len(),
            i <= pv.len(),
            forall|j: int| 0 <= j < i ==> v@[j] == #[trigger] pv@[j],
        decreases pv.len() - i,
    {
        if v[i] != pv[i] {
            proof {
                assert(v@.subrange(0, pv@.len() as int)[i as int] == v@[i as int]);
            }
            return false;
        }
        i += 1;
    }
    proof {
        assert(v@.subrange(0, pv@.len() as int) =~= pv@);
    }
    true
}

/// Whether `v` ends with the characters of `p`.
pub fn vec_ends_with(v: &Vec<char>, p: &str) -> (b: bool)
    ensures
        b == ends_with(v@, p@),
{
    let pv = chars_of(p);
    if pv.len() > v.len() {
        return false;
    }
    let off = v.len() - pv.len();
    let mut i: usize = 0;
    while i < pv.len()
        invariant
            pv@ == p@,
            off + pv.len() == v.len(),
            i <= pv.len(),
            forall|j: int| 0 <= j < i ==> v@[off + j] == #[trigger] pv@[j],
        decreases pv.len() - i,
    {
        if v[off + i] != pv[i] {
            proof {
                assert(v@.subrange(off as int, v@.len() as int)[i as int] == v@[off + i]);
            }
            return false;
        }
        i += 1;
    }
    proof {
        assert(v@.subrange(off as int, v@.len() as int) =~= pv@);
    }
    true
}

/// Appends the decimal rendering of `n`.
pub fn append_decimal(s: &mut String, n: u64)
    ensures
        final(s)@ == old(s)@ + decimal(n as nat),
    decreases n,
{
    if n >= 10 {
        append_decimal(s, n / 10);
    }
    let d = n % 10;
    let c = if d == 0 {
        '0'
    } else if d == 1 {
        '1'
    } else if d == 2 {
        '2'
    } else if d == 3 {
        '3'
    } else if d == 4 {
        '4'
    } else if d == 5 {
        '5'
    } else if d == 6 {
        '6'
    } else if d == 7 {
        '7'
    } else if d == 8 {
        '8'
    } else {
        '9'
    };
    push_char(s, c);
}

/// The whitespace-separated words of `s` joined by single spaces
/// (`s.split_whitespace().collect::<Vec<_>>().join(" ")`).
pub fn collapse_whitespace(s: &str) -> (r: String)
    ensures
        r@ == join(ws_tokens(s@), seq![' ']),
{
    let v = chars_of(s);
    let n = v.len();
    let mut out = String::new();
    let ghost mut toks: Seq<Seq<char>> = seq![];
    let mut i: usize = 0;
    let mut first = true;
    proof {
        assert(v@.subrange(0, n as int) =~= v@);
    }
    while i < n
        invariant
            i <= n == v.len(),
            first == (toks.len() == 0),
            v@ == s@,
            ws_tokens(v@) == toks + ws_tokens(v@.subrange(i as int, n as int)),
            out@ == join(toks, seq![' ']),
        decreases n - i,
    {
        let ghost sub = v@.subrange(i as int, n as int);
        let k = skip_ws(&v, i, n);
        proof {
            lemma_lead_ws(sub);
            assert(trim_start(sub) =~= v@.subrange(k as int, n as int));
        }
        if k == n {
            proof {
                assert(ws_tokens(sub) == Seq::<Seq<char>>::empty());
                assert(toks + Seq::<Seq<char>>::empty() =~= toks);
                assert(ws_tokens(v@.subrange(n as int, n as int)) == Seq::<Seq<char>>::empty());
            }
            i = n;
        } else {
            let w = skip_word(&v, k, n);
            let ghost t = v@.subrange(k as int, n as int);
            proof {
                assert(sub[(k - i) as int] == v@[k as int]);
                assert(t[0] == v@[k as int]);
                lemma_word_len(t);
                assert(t.subrange(0, (w - k) as int) =~= v@.subrange(k as int, w as int));
                assert(t.subrange((w - k) as int, t.len() as int) =~= v@.subrange(
                    w as int,
                    n as int,
                ));
                assert(ws_tokens(sub) == seq![v@.subrange(k as int, w as int)] + ws_tokens(
                    v@.subrange(w as int, n as int),
                ));
            }
            let ghost old_toks = toks;
            if !first {
                append_char(&mut out, ' ');
            }
            first = false;
            proof {
                if toks.len() == 0 {
                    assert(out@ == Seq::<char>::empty());
                }
            }
            append_chars(&mut out, &v, k, w);
            proof {
                toks = toks.push(v@.subrange(k as int, w as int));
                assert(toks.drop_last() =~= old_toks);
                if old_toks.len() == 0 {
                    assert(out@ =~= v@.subrange(k as int, w as int));
                }
                assert(toks + ws_tokens(v@.subrange(w as int, n as int)) =~= old_toks + (seq![
                    v@.subrange(k as int, w as int),
                ] + ws_tokens(v@.subrange(w as int, n as int))));
            }
            i = w;
        }
    }
    proof {
        assert(toks + Seq::<Seq<char>>::empty() =~= toks);
    }
    out
}

/// A new string holding the characters of a string slice.
pub fn to_owned_string(s: &str) -> (t: String)
    ensures
        t@ == s@,
{
    String::from_str(s)
}

/// `a` followed by `b`.
pub fn concat2(a: &str, b: &str) -> (t: String)
    ensures
        t@ == a@ + b@,
{
    let mut t = String::from_str(a);
    t.append(b);
    t
}

/// `a`, `b` and `c` in order.
pub fn concat3(a: &str, b: &str, c: &str) -> (t: String)
    ensures
        t@ == a@ + b@ + c@,
{
    let mut t = String::from_str(a);
    t.append(b);
    t.append(c);
    t
}

/// Whether two string slices hold the same characters.
pub fn str_eq(a: &str, b: &str) -> (r: bool)
    ensures
        r == (a@ == b@),
{
    let x = chars_of(a);
    let y = chars_of(b);
    if x.len() != y.len() {
        return false;
    }
    let mut i: usize = 0;
    while i < x.len()
        invariant
            x.len() == y.len(),
            i <= x.len(),
            x@ == a@,
            y@ == b@,
            forall|j: int| 0 <= j < i ==> x@[j] == y@[j],
        decreases x.len() - i,
    {
        if x[i] != y[i] {
            return false;
        }
        i += 1;
    }
    proof {
        assert(x@ =~= y@);
    }
    true
}

} // verus!
