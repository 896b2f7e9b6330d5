//! Character-level text operations with exact specifications.
//!
//! Strings are modelled by their views, `Seq<char>`; the executable helpers
//! work on `Vec<char>` copies and hand back `String`s.
use vstd::prelude::*;

verus! {

/// Unicode `White_Space`, the set that `char::is_whitespace` tests.
pub open spec fn is_ws(c: char) -> bool {
    ||| ('\u{9}' <= c && c <= '\u{d}')
    ||| c == ' '
    ||| c == '\u{85}'
    ||| c == '\u{a0}'
    ||| c == '\u{1680}'
    ||| ('\u{2000}' <= c && c <= '\u{200a}')
    ||| c == '\u{2028}'
    ||| c == '\u{2029}'
    ||| c == '\u{202f}'
    ||| c == '\u{205f}'
    ||| c == '\u{3000}'
}

/// Whether `c` is Unicode white space.
pub fn is_whitespace(c: char) -> (b: bool)
    ensures
        b == is_ws(c),
{
    ('\u{9}' <= c && c <= '\u{d}') || c == ' ' || c == '\u{85}' || c == '\u{a0}' || c == '\u{1680}'
        || ('\u{2000}' <= c && c <= '\u{200a}') || c == '\u{2028}' || c == '\u{2029}' || c
        == '\u{202f}' || c == '\u{205f}' || c == '\u{3000}'
}

/// The classes of characters that the library trims.
#[derive(Clone, Copy, PartialEq, Eq, Debug)]
pub enum CharClass {
    /// Unicode white space.
    Space,
    /// One given character.
    Letter(char),
    /// The characters `.` and ` `.
    DotOrBlank,
}

pub open spec fn in_class(k: CharClass, c: char) -> bool {
    match k {
        CharClass::Space => is_ws(c),
        CharClass::Letter(x) => c == x,
        CharClass::DotOrBlank => c == '.' || c == ' ',
    }
}

pub fn is_in_class(k: CharClass, c: char) -> (b: bool)
    ensures
        b == in_class(k, c),
{
    match k {
        CharClass::Space => is_whitespace(c),
        CharClass::Letter(x) => c == x,
        CharClass::DotOrBlank => c == '.' || c == ' ',
    }
}

/// `s` without its leading characters of class `k`.
pub open spec fn trim_front(s: Seq<char>, k: CharClass) -> Seq<char>
    decreases s.len(),
{
    if s.len() > 0 && in_class(k, s[0]) {
        trim_front(s.drop_first(), k)
    } else {
        s
    }
}

/// `s` without its trailing characters of class `k`.
pub open spec fn trim_back(s: Seq<char>, k: CharClass) -> Seq<char>
    decreases s.len(),
{
    if s.len() > 0 && in_class(k, s.last()) {
        trim_back(s.drop_last(), k)
    } else {
        s
    }
}

/// `s` without leading and trailing characters of class `k` (`str::trim_matches`).
pub open spec fn trim_both(s: Seq<char>, k: CharClass) -> Seq<char> {
    trim_back(trim_front(s, k), k)
}

/// `trim_front` removes a prefix, and what is left does not begin in class.
pub proof fn lemma_trim_front(s: Seq<char>, k: CharClass)
    ensures
        exists|n: int| 0 <= n <= s.len() && #[trigger] s.skip(n) == trim_front(s, k),
        trim_front(s, k).len() > 0 ==> !in_class(k, trim_front(s, k)[0]),
    decreases s.len(),
{
    if s.len() > 0 && in_class(k, s[0]) {
        lemma_trim_front(s.drop_first(), k);
        let n = choose|n: int| 0 <= n <= s.drop_first().len() && #[trigger] s.drop_first().skip(n) == trim_front(s.drop_first(), k);
        assert(s.skip(n + 1) =~= s.drop_first().skip(n));
    } else {
        assert(s.skip(0) =~= s);
    }
}

/// `trim_back` removes a suffix, and what is left does not end in class.
pub proof fn lemma_trim_back(s: Seq<char>, k: CharClass)
    ensures
        exists|n: int| 0 <= n <= s.len() && #[trigger] s.take(n) == trim_back(s, k),
        trim_back(s, k).len() > 0 ==> !in_class(k, trim_back(s, k).last()),
    decreases s.len(),
{
    if s.len() > 0 && in_class(k, s.last()) {
        lemma_trim_back(s.drop_last(), k);
        let n = choose|n: int| 0 <= n <= s.drop_last().len() && #[trigger] s.drop_last().take(n) == trim_back(s.drop_last(), k);
        assert(s.take(n) =~= s.drop_last().take(n));
    } else {
        assert(s.take(s.len() as int) =~= s);
    }
}

/// A text whose ends are out of class is its own trim.
pub proof fn lemma_trim_both_fixed(s: Seq<char>, k: CharClass)
    requires
        s.len() > 0 ==> !in_class(k, s[0]) && !in_class(k, s.last()),
    ensures
        trim_both(s, k) == s,
{
}

/// What trimming leaves is a piece of the text, with both ends out of class.
pub proof fn lemma_trim_both(s: Seq<char>, k: CharClass)
    ensures
        exists|a: int, b: int| 0 <= a <= b <= s.len() && #[trigger] s.subrange(a, b) == trim_both(s, k),
        trim_both(s, k).len() > 0 ==> !in_class(k, trim_both(s, k)[0]) && !in_class(k, trim_both(s, k).last()),
{
    lemma_trim_front(s, k);
    let f = trim_front(s, k);
    let n = choose|n: int| 0 <= n <= s.len() && #[trigger] s.skip(n) == f;
    lemma_trim_back(f, k);
    let m = choose|m: int| 0 <= m <= f.len() && #[trigger] f.take(m) == trim_back(f, k);
    assert(s.subrange(n, n + m) =~= f.take(m));
    if trim_both(s, k).len() > 0 {
        assert(trim_both(s, k)[0] == f[0]);
    }
}

/// `str::trim_start`.
pub open spec fn trim_start(s: Seq<char>) -> Seq<char> {
    trim_front(s, CharClass::Space)
}

/// `str::trim`.
pub open spec fn trim(s: Seq<char>) -> Seq<char> {
    trim_both(s, CharClass::Space)
}

/// `p` occurs in `h` at position `i`.
pub open spec fn occurs_at(h: Seq<char>, p: Seq<char>, i: int) -> bool {
    0 <= i && i + p.len() <= h.len() && h.subrange(i, i + p.len()) == p
}

/// The first position at or after `i` where `p` occurs in `h`.
pub open spec fn find_from(h: Seq<char>, p: Seq<char>, i: int) -> Option<int>
    decreases h.len() + 1 - i,
{
    if i < 0 || i + p.len() > h.len() {
        None
    } else if occurs_at(h, p, i) {
        Some(i)
    } else {
        find_from(h, p, i + 1)
    }
}

/// The first position where `p` occurs in `h` (`str::find`).
pub open spec fn find(h: Seq<char>, p: Seq<char>) -> Option<int> {
    find_from(h, p, 0)
}

/// `str::contains`.
pub open spec fn contains(h: Seq<char>, p: Seq<char>) -> bool {
    find(h, p) is Some
}

/// `str::starts_with`.
pub open spec fn starts_with(h: Seq<char>, p: Seq<char>) -> bool {
    p.len() <= h.len() && h.take(p.len() as int) == p
}

/// The pieces of `h` between the occurrences of `p`, left to right (`str::split`).
pub open spec fn split(h: Seq<char>, p: Seq<char>) -> Seq<Seq<char>>
    decreases h.len(),
{
    if p.len() == 0 {
        seq![h]
    } else {
        match find(h, p) {
            None => seq![h],
            Some(i) => if 0 <= i && i + p.len() <= h.len() {
                seq![h.take(i)] + split(h.skip(i + p.len()), p)
            } else {
                seq![h]
            },
        }
    }
}

pub proof fn lemma_find_from(h: Seq<char>, p: Seq<char>, i: int)
    requires
        0 <= i,
    ensures
        find_from(h, p, i) matches Some(j) ==> i <= j && occurs_at(h, p, j) && forall|k: int|
            i <= k < j ==> !occurs_at(h, p, k),
        find_from(h, p, i) is None ==> forall|k: int| i <= k ==> !occurs_at(h, p, k),
    decreases h.len() + 1 - i,
{
    if i + p.len() > h.len() {
    } else if occurs_at(h, p, i) {
    } else {
        lemma_find_from(h, p, i + 1);
    }
}

/// The facts that characterise `find`.
pub proof fn lemma_find(h: Seq<char>, p: Seq<char>)
    ensures
        find(h, p) matches Some(j) ==> 0 <= j && occurs_at(h, p, j) && forall|k: int|
            0 <= k < j ==> !occurs_at(h, p, k),
        find(h, p) is None ==> forall|k: int| 0 <= k ==> !occurs_at(h, p, k),
{
    lemma_find_from(h, p, 0);
}

/// Any position with the characterising facts is the one `find_from` gives.
pub proof fn lemma_find_from_unique(h: Seq<char>, p: Seq<char>, i: int, j: int)
    requires
        0 <= i <= j,
        occurs_at(h, p, j),
        forall|k: int| i <= k < j ==> !occurs_at(h, p, k),
    ensures
        find_from(h, p, i) == Some(j),
    decreases j - i,
{
    if i < j {
        lemma_find_from_unique(h, p, i + 1, j);
    }
}

/// What `str::to_lowercase` returns for a string: each character replaced by
/// its Unicode lower-case mapping.
pub uninterp spec fn lowercase(s: Seq<char>) -> Seq<char>;

/// `str::to_lowercase`. Claimed: the result is `lowercase` of the argument, a
/// function of the argument alone; nothing more is stated of the mapping.
#[verifier::external_body]
pub(crate) fn to_lowercase(s: &str) -> (r: String)
    ensures
        r@ == lowercase(s@),
{
    s.to_lowercase()
}

/// Appends one character to a string.
#[verifier::external_body]
pub(crate) fn push_char(s: &mut String, c: char)
    ensures
        final(s)@ == old(s)@.push(c),
{
    s.push(c)
}

/// The characters of a string slice, in order.
pub fn chars_of(s: &str) -> (v: Vec<char>)
    ensures
        v@ == s@,
{
    let mut v: Vec<char> = Vec::new();
    for c in it: s.chars()
        invariant
            v@ == it.seq().take(it.index() as int),
            it.seq() == s@,
    {
        v.push(c);
    }
    v
}

/// The string made of `v[lo..hi]`.
pub fn string_of_range(v: &Vec<char>, lo: usize, hi: usize) -> (s: String)
    requires
        lo <= hi <= v.len(),
    ensures
        s@ == v@.subrange(lo as int, hi as int),
{
    let mut s = String::new();
    let mut i = lo;
    while i < hi
        invariant
            lo <= i <= hi <= v.len(),
            s@ == v@.subrange(lo as int, i as int),
        decreases hi - i,
    {
        push_char(&mut s, v[i]);
        assert(v@.subrange(lo as int, i + 1) == v@.subrange(lo as int, i as int).push(v@[i as int]));
        i += 1;
    }
    s
}

/// The string made of `v`.
pub fn string_of(v: &Vec<char>) -> (s: String)
    ensures
        s@ == v@,
{
    let s = string_of_range(v, 0, v.len());
    assert(v@.subrange(0, v@.len() as int) == v@);
    s
}

/// Appends a string slice to a string.
pub fn push_str(s: &mut String, t: &str)
    ensures
        final(s)@ == old(s)@ + t@,
{
    let v = chars_of(t);
    let mut i: usize = 0;
    while i < v.len()
        invariant
            v@ == t@,
            i <= v.len(),
            s@ == old(s)@ + v@.take(i as int),
        decreases v.len() - i,
    {
        push_char(s, v[i]);
        assert(v@.take(i + 1) == v@.take(i as int).push(v@[i as int]));
        i += 1;
    }
    assert(v@.take(v@.len() as int) == v@);
}

/// A copy of `v[lo..hi]`.
pub fn sub_vec(v: &Vec<char>, lo: usize, hi: usize) -> (r: Vec<char>)
    requires
        lo <= hi <= v.len(),
    ensures
        r@ == v@.subrange(lo as int, hi as int),
{
    let mut r: Vec<char> = Vec::new();
    let mut i = lo;
    while i < hi
        invariant
            lo <= i <= hi <= v.len(),
            r@ == v@.subrange(lo as int, i as int),
        decreases hi - i,
    {
        r.push(v[i]);
        assert(v@.subrange(lo as int, i + 1) == v@.subrange(lo as int, i as int).push(v@[i as int]));
        i += 1;
    }
    r
}

/// Whether two character vectors are equal.
pub fn chars_eq(a: &Vec<char>, b: &Vec<char>) -> (r: bool)
    ensures
        r == (a@ == b@),
{
    if a.len() != b.len() {
        return false;
    }
    let mut i: usize = 0;
    while i < a.len()
        invariant
            a.len() == b.len(),
            i <= a.len(),
            forall|k: int| 0 <= k < i ==> a@[k] == b@[k],
        decreases a.len() - i,
    {
        if a[i] != b[i] {
            return false;
        }
        i += 1;
    }
    assert(a@ =~= b@);
    true
}

/// Whether two strings are equal.
pub fn str_eq(a: &str, b: &str) -> (r: bool)
    ensures
        r == (a@ == b@),
{
    let va = chars_of(a);
    let vb = chars_of(b);
    chars_eq(&va, &vb)
}

/// The index where `trim_front(v[lo..hi], k)` begins.
pub fn skip_front(v: &Vec<char>, lo: usize, hi: usize, k: CharClass) -> (r: usize)
    requires
        lo <= hi <= v.len(),
    ensures
        lo <= r <= hi,
        v@.subrange(r as int, hi as int) == trim_front(v@.subrange(lo as int, hi as int), k),
{
    let mut i = lo;
    while i < hi && is_in_class(k, v[i])
        invariant
            lo <= i <= hi <= v.len(),
            trim_front(v@.subrange(i as int, hi as int), k) == trim_front(
                v@.subrange(lo as int, hi as int),
                k,
            ),
        decreases hi - i,
    {
        assert(v@.subrange(i as int, hi as int).drop_first() == v@.subrange(i + 1, hi as int));
        i += 1;
    }
    i
}

/// The index where `trim_back(v[lo..hi], k)` ends.
pub fn skip_back(v: &Vec<char>, lo: usize, hi: usize, k: CharClass) -> (r: usize)
    requires
        lo <= hi <= v.len(),
    ensures
        lo <= r <= hi,
        v@.subrange(lo as int, r as int) == trim_back(v@.subrange(lo as int, hi as int), k),
{
    let mut j = hi;
    while j > lo && is_in_class(k, v[j - 1])
        invariant
            lo <= j <= hi <= v.len(),
            trim_back(v@.subrange(lo as int, j as int), k) == trim_back(
                v@.subrange(lo as int, hi as int),
                k,
            ),
        decreases j - lo,
    {
        assert(v@.subrange(lo as int, j as int).drop_last() == v@.subrange(lo as int, j - 1));
        j -= 1;
    }
    j
}

/// `trim_both(s, k)` as a string (`str::trim_matches`).
pub fn trim_class(s: &str, k: CharClass) -> (r: String)
    ensures
        r@ == trim_both(s@, k),
{
    let v = chars_of(s);
    let a = skip_front(&v, 0, v.len(), k);
    let b = skip_back(&v, a, v.len(), k);
    assert(v@.subrange(0, v@.len() as int) == v@);
    string_of_range(&v, a, b)
}

/// `str::trim`.
pub fn trim_str(s: &str) -> (r: String)
    ensures
        r@ == trim(s@),
{
    trim_class(s, CharClass::Space)
}

/// Whether `p` occurs in `h` at `i`.
pub fn occurs_at_exec(h: &Vec<char>, p: &Vec<char>, i: usize) -> (r: bool)
    ensures
        r == occurs_at(h@, p@, i as int),
{
    if i > h.len() || p.len() > h.len() - i {
        return false;
    }
    let mut k: usize = 0;
    while k < p.len()
        invariant
            i + p.len() <= h.len(),
            k <= p.len(),
            forall|m: int| 0 <= m < k ==> h@[i + m] == p@[m],
        decreases p.len() - k,
    {
        if h[i + k] != p[k] {
            assert(h@.subrange(i as int, i + p.len())[k as int] != p@[k as int]);
            return false;
        }
        k += 1;
    }
    assert(h@.subrange(i as int, i + p.len()) =~= p@);
    true
}

/// `find_from(h, p, i)`.
pub fn find_from_exec(h: &Vec<char>, p: &Vec<char>, i: usize) -> (r: Option<usize>)
    ensures
        match r {
            Some(j) => find_from(h@, p@, i as int) == Some(j as int),
            None => find_from(h@, p@, i as int) is None,
        },
{
    if i > h.len() {
        return None;
    }
    let mut j = i;
    proof {
        lemma_find_from(h@, p@, i as int);
    }
    while j <= h.len() && p.len() <= h.len() - j
        invariant_except_break
            j <= h.len(),
        invariant
            i <= j,
            forall|k: int| i <= k < j ==> !occurs_at(h@, p@, k),
        ensures
            forall|k: int| i <= k <= j ==> !occurs_at(h@, p@, k),
            j + p.len() >= h.len(),
        decreases h.len() + 1 - j,
    {
        if occurs_at_exec(h, p, j) {
            proof {
                lemma_find_from_unique(h@, p@, i as int, j as int);
            }
            return Some(j);
        }
        if j == h.len() {
            break;
        }
        j += 1;
    }
    proof {
        if let Some(m) = find_from(h@, p@, i as int) {
            assert(occurs_at(h@, p@, m));
            assert(false);
        }
    }
    None
}

/// `find(h, p)` on strings.
pub fn find_str(h: &str, p: &str) -> (r: Option<usize>)
    ensures
        match r {
            Some(j) => find(h@, p@) == Some(j as int),
            None => find(h@, p@) is None,
        },
{
    let hv = chars_of(h);
    let pv = chars_of(p);
    find_from_exec(&hv, &pv, 0)
}

/// `str::contains`.
pub fn contains_str(h: &str, p: &str) -> (r: bool)
    ensures
        r == contains(h@, p@),
{
    find_str(h, p).is_some()
}

/// `str::starts_with`.
pub fn starts_with_str(h: &str, p: &str) -> (r: bool)
    ensures
        r == starts_with(h@, p@),
{
    let hv = chars_of(h);
    let pv = chars_of(p);
    let r = occurs_at_exec(&hv, &pv, 0);
    proof {
        if r {
            assert(hv@.subrange(0, pv@.len() as int) == hv@.take(pv@.len() as int));
        }
        if starts_with(h@, p@) {
            assert(hv@.subrange(0, pv@.len() as int) == hv@.take(pv@.len() as int));
        }
    }
    r
}

/// `str::split` into owned pieces.
pub fn split_str(h: &str, p: &str) -> (r: Vec<String>)
    requires
        p@.len() > 0,
    ensures
        r@.len() == split(h@, p@).len(),
        forall|i: int| 0 <= i < r@.len() ==> #[trigger] r@[i]@ == split(h@, p@)[i],
{
    let hv = chars_of(h);
    let pv = chars_of(p);
    let mut r: Vec<String> = Vec::new();
    let mut start: usize = 0;
    proof {
        assert(hv@.skip(0) == hv@);
        assert(r@.map_values(|s: String| s@) =~= Seq::<Seq<char>>::empty());
        assert(Seq::<Seq<char>>::empty() + split(h@, p@) =~= split(h@, p@));
    }
    loop
        invariant
            hv@ == h@,
            pv@ == p@,
            pv@.len() > 0,
            start <= hv@.len(),
            split(h@, p@) == r@.map_values(|s: String| s@) + split(hv@.skip(start as int), pv@),
        decreases hv@.len() - start,
    {
        let rest_len = hv.len() - start;
        let ghost rest = hv@.skip(start as int);
        match find_from_exec(&hv, &pv, start) {
            Some(j) => {
                proof {
                    lemma_find_shift(hv@, pv@, start as int);
                    lemma_find_from(hv@, pv@, start as int);
                }
                let piece = string_of_range(&hv, start, j);
                proof {
                    assert(rest.take(j - start) == hv@.subrange(start as int, j as int));
                    assert(rest.skip(j - start + pv@.len()) == hv@.skip(j + pv@.len()));
                }
                let ghost old_r = r@;
                r.push(piece);
                proof {
                    assert(r@.map_values(|s: String| s@) == old_r.map_values(|s: String| s@).push(
                        piece@,
                    ));
                }
                start = j + pv.len();
            },
            None => {
                proof {
                    lemma_find_shift(hv@, pv@, start as int);
                }
                let piece = string_of_range(&hv, start, hv.len());
                let ghost old_r = r@;
                r.push(piece);
                proof {
                    assert(r@.map_values(|s: String| s@) == old_r.map_values(|s: String| s@).push(
                        piece@,
                    ));
                    assert(rest == hv@.subrange(start as int, hv@.len() as int));
                    assert(r@.map_values(|s: String| s@) == split(h@, p@));
                }
                return r;
            },
        }
    }
}

/// Searching from `i` is searching the suffix that starts at `i`.
pub proof fn lemma_find_shift(h: Seq<char>, p: Seq<char>, i: int)
    requires
        0 <= i <= h.len(),
    ensures
        match find_from(h, p, i) {
            Some(j) => find(h.skip(i), p) == Some(j - i),
            None => find(h.skip(i), p) is None,
        },
{
    lemma_find_from(h, p, i);
    lemma_find(h.skip(i), p);
    assert forall|k: int| 0 <= k implies occurs_at(h.skip(i), p, k) == occurs_at(h, p, k + i) by {
        if k + p.len() <= h.len() - i {
            assert(h.skip(i).subrange(k, k + p.len()) == h.subrange(k + i, k + i + p.len()));
        }
    }
    match find_from(h, p, i) {
        Some(j) => {
            lemma_find_from_unique(h.skip(i), p, 0, j - i);
        },
        None => {
            if let Some(m) = find(h.skip(i), p) {
                assert(occurs_at(h, p, m + i));
            }
        },
    }
}

/// The text of each string of a list.
pub open spec fn strings_view(v: Seq<String>) -> Seq<Seq<char>> {
    v.map_values(|s: String| s@)
}

/// The pieces joined with `sep` between them (`[T]::join`).
pub open spec fn join(pieces: Seq<Seq<char>>, sep: Seq<char>) -> Seq<char>
    decreases pieces.len(),
{
    if pieces.len() == 0 {
        Seq::empty()
    } else if pieces.len() == 1 {
        pieces[0]
    } else {
        join(pieces.drop_last(), sep) + sep + pieces.last()
    }
}

/// The strings of `v` joined with `sep` between them.
pub fn join_strings(v: &Vec<String>, sep: &str) -> (r: String)
    ensures
        r@ == join(strings_view(v@), sep@),
{
    let ghost pieces = strings_view(v@);
    let mut r = String::new();
    let mut i: usize = 0;
    while i < v.len()
        invariant
            i <= v.len(),
            pieces == strings_view(v@),
            r@ == join(pieces.take(i as int), sep@),
        decreases v.len() - i,
    {
        assert(pieces.take(i + 1).drop_last() =~= pieces.take(i as int));
        if i > 0 {
            push_str(&mut r, sep);
        }
        push_str(&mut r, v[i].as_str());
        proof {
            if i == 0 {
                assert(r@ =~= pieces.take(1)[0]);
            }
        }
        i += 1;
    }
    assert(pieces.take(i as int) =~= pieces);
    r
}

} // verus!
