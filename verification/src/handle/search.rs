//! Full-text search: the plain, fuzzy and regex matches, and the snippet a
//! hit shows.
use vstd::prelude::*;
use crate::handle::list::{tag_name_list, tag_names};
use crate::model::{own, NoteIndexModel, NoteView};
use crate::notefile::{body_of, extract_body};
use crate::storage::DataBaseStorage;
use crate::text::{
    chars_of, contains, contains_str, find, find_str, join, join_strings, lowercase, push_char,
    push_str, str_eq, string_of_range, to_lowercase,
};
use crate::time::{date_minute_format, format_minutes, formatted_time};

verus! {

/// `needle` occurs in `haystack`, ignoring case unless `case_sensitive`.
pub open spec fn plain_match(haystack: Seq<char>, needle: Seq<char>, case_sensitive: bool) -> bool {
    if case_sensitive {
        contains(haystack, needle)
    } else {
        contains(lowercase(haystack), lowercase(needle))
    }
}

/// Plain-text search.
pub fn search_plain(haystack: &str, needle: &str, case_sensitive: bool) -> (r: bool)
    ensures
        r == plain_match(haystack@, needle@, case_sensitive),
{
    if case_sensitive {
        contains_str(haystack, needle)
    } else {
        let h = to_lowercase(haystack);
        let n = to_lowercase(needle);
        contains_str(h.as_str(), n.as_str())
    }
}

/// How many characters of `pat` a left-to-right scan of `hay` takes in
/// order, taking the next one whenever it comes.
pub open spec fn greedy_taken(hay: Seq<char>, pat: Seq<char>) -> nat
    decreases hay.len(),
{
    if hay.len() == 0 {
        0
    } else {
        let c = greedy_taken(hay.drop_last(), pat);
        if c < pat.len() && hay.last() == pat[c as int] {
            c + 1
        } else {
            c
        }
    }
}

/// The characters of `pat` occur in `hay` in order (not necessarily together).
pub open spec fn is_subsequence(pat: Seq<char>, hay: Seq<char>) -> bool {
    exists|idx: Seq<int>|
        #![trigger idx.len()]
        idx.len() == pat.len() && (forall|k: int| 0 <= k < idx.len() ==> 0 <= #[trigger] idx[k] < hay.len() && hay[idx[k]] == pat[k])
            && (forall|k: int| 0 < k < idx.len() ==> #[trigger] idx[k - 1] < idx[k])
}

/// Fuzzy search: the keyword's characters occur in the haystack in order,
/// ignoring case unless `case_sensitive`.
pub open spec fn fuzzy_match(haystack: Seq<char>, pattern: Seq<char>, case_sensitive: bool) -> bool {
    let (h, p) = if case_sensitive {
        (haystack, pattern)
    } else {
        (lowercase(haystack), lowercase(pattern))
    };
    greedy_taken(h, p) == p.len()
}

fn greedy_match(h: &Vec<char>, p: &Vec<char>) -> (r: bool)
    ensures
        r == (greedy_taken(h@, p@) == p@.len()),
{
    let mut c: usize = 0;
    let mut i: usize = 0;
    while i < h.len()
        invariant
            i <= h.len(),
            c == greedy_taken(h@.take(i as int), p@),
            c <= p@.len(),
        decreases h.len() - i,
    {
        assert(h@.take(i + 1).drop_last() =~= h@.take(i as int));
        if c < p.len() && p[c] == h[i] {
            c += 1;
        }
        i += 1;
    }
    assert(h@.take(i as int) =~= h@);
    c == p.len()
}

/// Fuzzy search.
pub fn search_fuzzy(haystack: &str, pattern: &str, case_sensitive: bool) -> (r: bool)
    ensures
        r == fuzzy_match(haystack@, pattern@, case_sensitive),
{
    if case_sensitive {
        greedy_match(&chars_of(haystack), &chars_of(pattern))
    } else {
        let h = to_lowercase(haystack);
        let p = to_lowercase(pattern);
        greedy_match(&chars_of(h.as_str()), &chars_of(p.as_str()))
    }
}

/// The greedy scan takes all of `pat` exactly when `pat` is a subsequence
/// of `hay`.
pub proof fn lemma_greedy_is_subsequence(pat: Seq<char>, hay: Seq<char>)
    ensures
        greedy_taken(hay, pat) == pat.len() <==> is_subsequence(pat, hay),
{
    lemma_greedy_bound(hay, pat);
    if greedy_taken(hay, pat) == pat.len() {
        let idx = lemma_greedy_witness(hay, pat);
        assert(idx.len() == pat.len());
    }
    if is_subsequence(pat, hay) {
        let idx = choose|idx: Seq<int>|
            #![trigger idx.len()]
            idx.len() == pat.len() && (forall|k: int| 0 <= k < idx.len() ==> 0 <= #[trigger] idx[k] < hay.len() && hay[idx[k]] == pat[k])
                && (forall|k: int| 0 < k < idx.len() ==> #[trigger] idx[k - 1] < idx[k]);
        lemma_greedy_dominates(hay, pat, idx, pat.len() as int);
    }
}

proof fn lemma_greedy_bound(hay: Seq<char>, pat: Seq<char>)
    ensures
        greedy_taken(hay, pat) <= pat.len(),
    decreases hay.len(),
{
    if hay.len() > 0 {
        lemma_greedy_bound(hay.drop_last(), pat);
    }
}

/// The positions the greedy scan takes, one per character of `pat` taken.
proof fn lemma_greedy_witness(hay: Seq<char>, pat: Seq<char>) -> (idx: Seq<int>)
    ensures
        idx.len() == greedy_taken(hay, pat),
        forall|k: int| 0 <= k < idx.len() ==> 0 <= #[trigger] idx[k] < hay.len() && hay[idx[k]] == pat[k],
        forall|k: int| 0 < k < idx.len() ==> #[trigger] idx[k - 1] < idx[k],
    decreases hay.len(),
{
    if hay.len() == 0 {
        Seq::empty()
    } else {
        let prev = lemma_greedy_witness(hay.drop_last(), pat);
        let c = greedy_taken(hay.drop_last(), pat);
        if c < pat.len() && hay.last() == pat[c as int] {
            let idx = prev.push(hay.len() - 1);
            assert forall|k: int| 0 < k < idx.len() implies #[trigger] idx[k - 1] < idx[k] by {
                if k < idx.len() - 1 {
                    assert(idx[k - 1] == prev[k - 1] && idx[k] == prev[k]);
                } else {
                    assert(idx[k - 1] == prev[k - 1]);
                }
            }
            assert forall|k: int| 0 <= k < idx.len() implies 0 <= #[trigger] idx[k] < hay.len() && hay[idx[k]] == pat[k] by {
                if k < idx.len() - 1 {
                    assert(idx[k] == prev[k]);
                    assert(hay.drop_last()[prev[k]] == hay[prev[k]]);
                }
            }
            idx
        } else {
            assert forall|k: int| 0 <= k < prev.len() implies 0 <= #[trigger] prev[k] < hay.len() && hay[prev[k]] == pat[k] by {
                assert(hay.drop_last()[prev[k]] == hay[prev[k]]);
            }
            prev
        }
    }
}

/// Any `m` characters of `pat` matched in order within `hay` are taken by the
/// greedy scan.
proof fn lemma_greedy_dominates(hay: Seq<char>, pat: Seq<char>, idx: Seq<int>, m: int)
    requires
        0 <= m <= idx.len(),
        idx.len() <= pat.len(),
        forall|k: int| 0 <= k < idx.len() ==> 0 <= #[trigger] idx[k] < hay.len() && hay[idx[k]] == pat[k],
        forall|k: int| 0 < k < idx.len() ==> #[trigger] idx[k - 1] < idx[k],
    ensures
        m > 0 ==> greedy_taken(hay.take(idx[m - 1] + 1), pat) >= m,
        m == idx.len() ==> greedy_taken(hay, pat) >= m,
    decreases m,
{
    if m > 0 {
        lemma_greedy_dominates(hay, pat, idx, m - 1);
        let e = idx[m - 1] + 1;
        if m > 1 {
            lemma_greedy_monotone(hay, pat, idx[m - 2] + 1, idx[m - 1]);
        }
        let pre = hay.take(e);
        assert(pre.drop_last() =~= hay.take(e - 1));
        lemma_greedy_bound(hay.take(e - 1), pat);
        if m == idx.len() {
            lemma_greedy_monotone(hay, pat, e, hay.len() as int);
            assert(hay.take(hay.len() as int) =~= hay);
        }
    }
}

/// Scanning further never takes fewer characters.
proof fn lemma_greedy_monotone(hay: Seq<char>, pat: Seq<char>, a: int, b: int)
    requires
        0 <= a <= b <= hay.len(),
    ensures
        greedy_taken(hay.take(a), pat) <= greedy_taken(hay.take(b), pat),
    decreases b - a,
{
    if a < b {
        lemma_greedy_monotone(hay, pat, a, b - 1);
        assert(hay.take(b).drop_last() =~= hay.take(b - 1));
    }
}

/// What the regex crate makes of `pattern` on `hay`: `None` where
/// `Regex::new` refuses the pattern, else the character position where
/// the leftmost match starts (`None` for no match).
pub uninterp spec fn regex_first_match(pattern: Seq<char>, hay: Seq<char>) -> Option<Option<nat>>;

/// `Regex::new(pattern)` then `is_match(hay)`. Claimed: `None` exactly where
/// the pattern is refused, else whether there is a match, which (as the
/// crate documents) is whether `find` finds one.
#[verifier::external_body]
fn regex_is_match(pattern: &str, hay: &str) -> (r: Option<bool>)
    ensures
        r == match regex_first_match(pattern@, hay@) {
            Some(m) => Some(m is Some),
            None => None::<bool>,
        },
{
    match regex::Regex::new(pattern) {
        Ok(re) => Some(re.is_match(hay)),
        Err(_) => None,
    }
}

/// `Regex::new(pattern)` then `find(hay)`, the match start given as a
/// character position. Claimed: the result is `regex_first_match`, and a
/// match starts within `hay`.
#[verifier::external_body]
fn regex_find_start(pattern: &str, hay: &str) -> (r: Option<Option<usize>>)
    ensures
        match r {
            Some(Some(k)) => regex_first_match(pattern@, hay@) == Some(Some(k as nat)) && k
                <= hay@.len(),
            Some(None) => regex_first_match(pattern@, hay@) == Some(None::<nat>),
            None => regex_first_match(pattern@, hay@) is None,
        },
{
    match regex::Regex::new(pattern) {
        Ok(re) => Some(re.find(hay).map(|m| hay[..m.start()].chars().count())),
        Err(_) => None,
    }
}

/// `(?i)`, the inline flag that makes a regex ignore case.
pub open spec fn ignore_case_flag() -> Seq<char> {
    seq!['(', '?', 'i', ')']
}

/// The pattern handed to the regex crate.
pub open spec fn regex_pattern(pattern: Seq<char>, case_sensitive: bool) -> Seq<char> {
    if case_sensitive {
        pattern
    } else {
        ignore_case_flag() + pattern
    }
}

/// Regex search: whether the pattern matches, falling back to plain search
/// where the regex crate refuses the pattern.
pub open spec fn regex_match(haystack: Seq<char>, pattern: Seq<char>, case_sensitive: bool) -> bool {
    match regex_first_match(regex_pattern(pattern, case_sensitive), haystack) {
        Some(m) => m is Some,
        None => plain_match(haystack, pattern, case_sensitive),
    }
}

/// Regex search; the second value tells whether the pattern was refused
/// (and plain search used instead).
pub fn search_regex(haystack: &str, pattern: &str, case_sensitive: bool) -> (r: (bool, bool))
    ensures
        r.0 == regex_match(haystack@, pattern@, case_sensitive),
        r.1 == regex_first_match(regex_pattern(pattern@, case_sensitive), haystack@) is None,
{
    let full = if case_sensitive {
        own(pattern)
    } else {
        let mut f = own("(?i)");
        push_str(&mut f, pattern);
        proof {
            reveal_strlit("(?i)");
            assert(f@ =~= ignore_case_flag() + pattern@);
        }
        f
    };
    match regex_is_match(full.as_str(), haystack) {
        Some(b) => (b, false),
        None => (search_plain(haystack, pattern, case_sensitive), true),
    }
}

/// The search modes.
#[derive(Debug, Clone, Copy, PartialEq, Eq, Structural)]
pub enum SearchMode {
    Plain,
    Regex,
    Fuzzy,
}

/// The mode a `--mode` value names: `regex`, `fuzzy`, else plain.
pub open spec fn mode_named(mode: Option<Seq<char>>) -> SearchMode {
    match mode {
        Some(m) => if m == seq!['r', 'e', 'g', 'e', 'x'] {
            SearchMode::Regex
        } else if m == seq!['f', 'u', 'z', 'z', 'y'] {
            SearchMode::Fuzzy
        } else {
            SearchMode::Plain
        },
        None => SearchMode::Plain,
    }
}

/// The mode `mode` names.
pub fn mode_of(mode: &Option<String>) -> (r: SearchMode)
    ensures
        r == mode_named(match mode {
            Some(m) => Some(m@),
            None => None,
        }),
{
    proof {
        reveal_strlit("regex");
        reveal_strlit("fuzzy");
        assert("regex"@ =~= seq!['r', 'e', 'g', 'e', 'x']);
        assert("fuzzy"@ =~= seq!['f', 'u', 'z', 'z', 'y']);
    }
    match mode {
        Some(m) => if str_eq(m.as_str(), "regex") {
            SearchMode::Regex
        } else if str_eq(m.as_str(), "fuzzy") {
            SearchMode::Fuzzy
        } else {
            SearchMode::Plain
        },
        None => SearchMode::Plain,
    }
}

/// Whether the haystack matches the keyword in the mode.
pub open spec fn mode_match(mode: SearchMode, haystack: Seq<char>, keyword: Seq<char>, case_sensitive: bool) -> bool {
    match mode {
        SearchMode::Regex => regex_match(haystack, keyword, case_sensitive),
        SearchMode::Fuzzy => fuzzy_match(haystack, keyword, case_sensitive),
        SearchMode::Plain => plain_match(haystack, keyword, case_sensitive),
    }
}

/// The text searched for a note: its title, body, category and tag names,
/// separated by spaces.
pub open spec fn haystack_of(n: NoteView, body: Seq<char>) -> Seq<char> {
    n.title + seq![' '] + body + seq![' '] + n.category.name + seq![' '] + join(tag_names(n.tags), seq![' '])
}

/// The text searched for a note.
pub fn haystack(n: &crate::model::NoteIndexModel, body: &str) -> (r: String)
    ensures
        r@ == haystack_of(n@, body@),
{
    let mut r = n.title.clone();
    push_str(&mut r, " ");
    push_str(&mut r, body);
    push_str(&mut r, " ");
    push_str(&mut r, n.category.name.as_str());
    push_str(&mut r, " ");
    let names = tag_name_list(&n.tags);
    let t = join_strings(&names, " ");
    push_str(&mut r, t.as_str());
    proof {
        reveal_strlit(" ");
        assert(" "@ =~= seq![' ']);
        assert(t@ == join(tag_names(n@.tags), seq![' ']));
        assert(r@ =~= haystack_of(n@, body@));
    }
    r
}

/// The first line of a text (`str::lines`: up to the first line feed, a
/// carriage return before it dropped).
pub open spec fn first_line(s: Seq<char>) -> Seq<char> {
    match find(s, seq!['\n']) {
        Some(k) => {
            let l = s.take(k);
            if l.len() > 0 && l.last() == '\r' {
                l.drop_last()
            } else {
                l
            }
        },
        None => s,
    }
}

/// The first line of `s`.
pub fn first_line_of(v: &Vec<char>) -> (r: Vec<char>)
    ensures
        r@ == first_line(v@),
{
    let nl = vec!['\n'];
    assert(nl@ =~= seq!['\n']);
    match crate::text::find_from_exec(v, &nl, 0) {
        Some(k) => {
            proof {
                crate::text::lemma_find_from(v@, seq!['\n'], 0);
            }
            let mut e = k;
            if e > 0 && v[e - 1] == '\r' {
                e = e - 1;
            }
            let r = crate::text::sub_vec(v, 0, e);
            assert(r@ =~= first_line(v@));
            r
        },
        None => {
            let r = crate::text::sub_vec(v, 0, v.len());
            assert(r@ =~= v@);
            r
        },
    }
}

/// The first 40 characters and `…`, or the whole text when it is not longer.
pub open spec fn head_of(text: Seq<char>) -> Seq<char> {
    if text.len() > 40 {
        text.take(40).push('…')
    } else {
        text
    }
}

/// Where the keyword is found in the lower-cased first line, by mode: the
/// regex (always ignoring case), the keyword's first character, or the
/// keyword.
pub open spec fn match_position(mode: SearchMode, lower_text: Seq<char>, lower_keyword: Seq<char>, keyword: Seq<char>) -> Option<int> {
    match mode {
        SearchMode::Regex => match regex_first_match(ignore_case_flag() + keyword, lower_text) {
            Some(Some(k)) => Some(k as int),
            _ => None,
        },
        SearchMode::Fuzzy => find(
            lower_text,
            seq![
                if lower_keyword.len() > 0 {
                    lower_keyword[0]
                } else {
                    '\0'
                },
            ],
        ),
        SearchMode::Plain => find(lower_text, lower_keyword),
    }
}

/// The snippet a hit shows: from the body's first line (`-` when empty),
/// the part around the keyword set between `…` marks when it is found past
/// the 15th character, else the line's head.
pub open spec fn snippet(content: Seq<char>, keyword: Seq<char>, mode: SearchMode) -> Seq<char> {
    let text = first_line(content);
    if text.len() == 0 {
        seq!['-']
    } else {
        let lk = lowercase(keyword);
        match match_position(mode, lowercase(text), lk, keyword) {
            Some(p) => if p > 15 {
                let start = p - 5;
                let end = if p + lk.len() + 20 < text.len() {
                    p + lk.len() + 20
                } else {
                    text.len() as int
                };
                seq!['…'] + (if start < end {
                    text.subrange(start, end)
                } else {
                    Seq::empty()
                }) + seq!['…']
            } else {
                head_of(text)
            },
            None => head_of(text),
        }
    }
}

/// The snippet a hit shows (see `snippet`).
pub fn highlight_match(content: &str, keyword: &str, mode: SearchMode, case_sensitive: bool) -> (r: String)
    ensures
        r@ == snippet(content@, keyword@, mode),
{
    let cv = chars_of(content);
    let tv = first_line_of(&cv);
    if tv.len() == 0 {
        proof {
            reveal_strlit("-");
        }
        return own("-");
    }
    let text = crate::text::string_of(&tv);
    let lower_text = to_lowercase(text.as_str());
    let lower_kw = to_lowercase(keyword);
    let lkv = chars_of(lower_kw.as_str());
    let pos: Option<usize> = match mode {
        SearchMode::Regex => {
            let mut pat = own("(?i)");
            push_str(&mut pat, keyword);
            proof {
                reveal_strlit("(?i)");
                assert(pat@ =~= ignore_case_flag() + keyword@);
            }
            match regex_find_start(pat.as_str(), lower_text.as_str()) {
                Some(Some(k)) => Some(k),
                _ => None,
            }
        },
        SearchMode::Fuzzy => {
            let c = if lkv.len() > 0 {
                lkv[0]
            } else {
                '\0'
            };
            let cv1 = vec![c];
            let ltv = chars_of(lower_text.as_str());
            let f = crate::text::find_from_exec(&ltv, &cv1, 0);
            proof {
                assert(cv1@ =~= seq![c]);
            }
            f
        },
        SearchMode::Plain => find_str(lower_text.as_str(), lower_kw.as_str()),
    };
    proof {
        assert(lkv@ == lowercase(keyword@));
    }
    let n = tv.len();
    match pos {
        Some(p) => {
            if p > 15 {
                let start = p - 5;
                let wide: u128 = p as u128 + lkv.len() as u128 + 20;
                let end: usize = if wide < n as u128 {
                    wide as usize
                } else {
                    n
                };
                let mut out = String::new();
                push_char(&mut out, '…');
                if start < end {
                    let mid = string_of_range(&tv, start, end);
                    push_str(&mut out, mid.as_str());
                }
                push_char(&mut out, '…');
                proof {
                    assert(out@ =~= snippet(content@, keyword@, mode));
                }
                out
            } else {
                head_text(&tv)
            }
        },
        None => head_text(&tv),
    }
}

/// The first 40 characters of `v` and `…`, or all of `v`.
fn head_text(v: &Vec<char>) -> (r: String)
    ensures
        r@ == head_of(v@),
{
    if v.len() > 40 {
        let mut r = string_of_range(v, 0, 40);
        push_char(&mut r, '…');
        r
    } else {
        crate::text::string_of(v)
    }
}

/// The body of note `i`, read from `files[i]` (empty where that file could
/// not be read).
pub open spec fn body_at(files: Seq<Option<String>>, i: int) -> Seq<char> {
    if 0 <= i < files.len() {
        match files[i] {
            Some(t) => body_of(t@),
            None => Seq::empty(),
        }
    } else {
        Seq::empty()
    }
}

/// The positions below `n`, in order.
pub open spec fn upto(n: nat) -> Seq<int> {
    Seq::new(n, |k: int| k)
}

/// The property of position `i` of being a hit.
pub open spec fn is_hit(
    notes: Seq<NoteView>,
    files: Seq<Option<String>>,
    mode: SearchMode,
    keyword: Seq<char>,
    case_sensitive: bool,
) -> spec_fn(int) -> bool {
    |i: int| mode_match(mode, haystack_of(notes[i], body_at(files, i)), keyword, case_sensitive)
}

/// The positions of the notes that match, in order.
pub open spec fn hits(
    notes: Seq<NoteView>,
    files: Seq<Option<String>>,
    mode: SearchMode,
    keyword: Seq<char>,
    case_sensitive: bool,
) -> Seq<int> {
    upto(notes.len()).filter(is_hit(notes, files, mode, keyword, case_sensitive))
}

/// One row of the search results.
pub struct SearchRow {
    pub id: u32,
    pub title: String,
    pub category: String,
    pub context: String,
    pub modified: String,
}

/// The rows found, and whether the regex crate refused the pattern.
pub struct SearchOutcome {
    pub rows: Vec<SearchRow>,
    pub pattern_refused: bool,
}

/// The row a hit shows.
pub open spec fn row_shows(row: SearchRow, n: NoteView, body: Seq<char>, keyword: Seq<char>, mode: SearchMode) -> bool {
    &&& row.id == n.id
    &&& row.title@ == n.title
    &&& row.category@ == n.category.name
    &&& row.context@ == snippet(body, keyword, mode)
    &&& row.modified@ == formatted_time(
        n.modified.secs,
        n.modified.nanos,
        n.modified.offset,
        date_minute_format(),
    )
}

/// `note search`: the notes whose title, body, category and tags match the
/// keyword in the mode `mode` names (plain by default), at most
/// `max_results` of them in index order, each with its snippet; `files[i]`
/// is the text of note `i`'s file. A refused regex pattern falls back to
/// plain search, and the outcome says so.
pub fn handle(
    keyword: &str,
    mode: &Option<String>,
    case_sensitive: bool,
    storage: &DataBaseStorage,
    files: &Vec<Option<String>>,
    max_results: usize,
) -> (r: SearchOutcome)
    ensures
        ({
            let m = mode_named(
                match *mode {
                    Some(t) => Some(t@),
                    None => None,
                },
            );
            let hs = hits(storage.notes(), files@, m, keyword@, case_sensitive);
            &&& r.rows@.len() == if hs.len() < max_results {
                hs.len()
            } else {
                max_results as nat
            }
            &&& forall|j: int|
                0 <= j < r.rows@.len() ==> row_shows(
                    #[trigger] r.rows@[j],
                    storage.notes()[hs[j]],
                    body_at(files@, hs[j]),
                    keyword@,
                    m,
                )
            &&& r.pattern_refused == (m == SearchMode::Regex && exists|i: int|
                0 <= i < storage.notes().len() && regex_first_match(
                    regex_pattern(keyword@, case_sensitive),
                    haystack_of(#[trigger] storage.notes()[i], body_at(files@, i)),
                ) is None)
        }),
{
    let m = mode_of(mode);
    let notes = storage.list_notes();
    let ghost sn = storage.notes();
    let ghost p = is_hit(sn, files@, m, keyword@, case_sensitive);
    let mut rows: Vec<SearchRow> = Vec::new();
    let mut refused = false;
    let ghost mut found: Seq<int> = Seq::empty();
    let mut i: usize = 0;
    while i < notes.len()
        invariant
            i <= notes@.len(),
            notes@.len() == sn.len(),
            sn == storage.notes(),
            forall|k: int| 0 <= k < notes@.len() ==> (#[trigger] notes@[k])@ == sn[k],
            p == is_hit(sn, files@, m, keyword@, case_sensitive),
            found == upto(i as nat).filter(p),
            rows@.len() == if found.len() < max_results {
                found.len()
            } else {
                max_results as nat
            },
            forall|j: int|
                0 <= j < rows@.len() ==> row_shows(
                    #[trigger] rows@[j],
                    sn[found[j]],
                    body_at(files@, found[j]),
                    keyword@,
                    m,
                ),
            refused == (m == SearchMode::Regex && exists|k: int|
                0 <= k < i && regex_first_match(
                    regex_pattern(keyword@, case_sensitive),
                    haystack_of(#[trigger] sn[k], body_at(files@, k)),
                ) is None),
        decreases notes.len() - i,
    {
        let n: &NoteIndexModel = notes[i];
        let body = if i < files.len() {
            match &files[i] {
                Some(t) => extract_body(t.as_str()),
                None => String::new(),
            }
        } else {
            String::new()
        };
        assert(body@ == body_at(files@, i as int));
        let hay = haystack(n, body.as_str());
        let hit = match m {
            SearchMode::Regex => {
                let (b, bad) = search_regex(hay.as_str(), keyword, case_sensitive);
                if bad {
                    refused = true;
                }
                b
            },
            SearchMode::Fuzzy => search_fuzzy(hay.as_str(), keyword, case_sensitive),
            SearchMode::Plain => search_plain(hay.as_str(), keyword, case_sensitive),
        };
        proof {
            assert(upto((i + 1) as nat) =~= upto(i as nat).push(i as int));
            reveal_with_fuel(Seq::<_>::filter, 1);
            assert(upto((i + 1) as nat).drop_last() =~= upto(i as nat));
            assert(hit == p(i as int));
        }
        if hit {
            let ghost before = found;
            proof {
                found = found.push(i as int);
            }
            if rows.len() < max_results {
                let row = SearchRow {
                    id: n.id,
                    title: n.title.clone(),
                    category: n.category.name.clone(),
                    context: highlight_match(body.as_str(), keyword, m, case_sensitive),
                    modified: format_minutes(&n.modified),
                };
                rows.push(row);
                proof {
                    assert forall|j: int| 0 <= j < rows@.len() implies row_shows(
                        #[trigger] rows@[j],
                        sn[found[j]],
                        body_at(files@, found[j]),
                        keyword@,
                        m,
                    ) by {
                        if j < rows@.len() - 1 {
                            assert(found[j] == before[j]);
                        }
                    }
                }
            } else {
                proof {
                    assert forall|j: int| 0 <= j < rows@.len() implies row_shows(
                        #[trigger] rows@[j],
                        sn[found[j]],
                        body_at(files@, found[j]),
                        keyword@,
                        m,
                    ) by {
                        assert(found[j] == before[j]);
                    }
                }
            }
        }
        proof {
            if m == SearchMode::Regex && regex_first_match(
                regex_pattern(keyword@, case_sensitive),
                haystack_of(sn[i as int], body_at(files@, i as int)),
            ) is None {
                assert(refused);
            }
        }
        i += 1;
    }
    proof {
        assert(found == hits(sn, files@, m, keyword@, case_sensitive));
    }
    SearchOutcome { rows, pattern_refused: refused }
}

} // verus!
