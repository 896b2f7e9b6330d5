//! The note file format: a JSON front matter between `---` lines, then the
//! Markdown body; and the file name a title is stored under.
use vstd::prelude::*;
use crate::text::{
    in_class, chars_of, find, find_from_exec, lemma_find, lemma_find_from_unique, occurs_at, push_str,
    skip_back, skip_front, starts_with, string_of, string_of_range, trim, trim_both, trim_start,
    CharClass,
};

verus! {

/// The characters a file name cannot hold.
pub open spec fn forbidden(c: char) -> bool {
    c == '/' || c == '\\' || c == ':' || c == '*' || c == '?' || c == '"' || c == '<' || c == '>'
        || c == '|'
}

/// `title` with each forbidden character replaced by `_`.
pub open spec fn replace_forbidden(title: Seq<char>) -> Seq<char> {
    title.map_values(|c: char| if forbidden(c) { '_' } else { c })
}

pub open spec fn untitled() -> Seq<char> {
    seq!['u', 'n', 't', 'i', 't', 'l', 'e', 'd']
}

/// The file name (without extension) a title is stored under: forbidden
/// characters replaced by `_`, leading and trailing dots and blanks removed,
/// and `untitled` where nothing is left.
pub open spec fn sanitized(title: Seq<char>) -> Seq<char> {
    let t = trim_both(replace_forbidden(title), CharClass::DotOrBlank);
    if t.len() == 0 {
        untitled()
    } else {
        t
    }
}

/// Replaces the characters of `title` that a file name cannot hold by `_`,
/// trims dots and blanks at both ends, and gives `untitled` for nothing.
pub fn sanitize_filename(title: &str) -> (r: String)
    ensures
        r@ == sanitized(title@),
{
    let v = chars_of(title);
    let mut m: Vec<char> = Vec::new();
    let mut i: usize = 0;
    while i < v.len()
        invariant
            v@ == title@,
            i <= v.len(),
            m@ == replace_forbidden(v@.take(i as int)),
        decreases v.len() - i,
    {
        let c = v[i];
        let d = if c == '/' || c == '\\' || c == ':' || c == '*' || c == '?' || c == '"' || c == '<'
            || c == '>' || c == '|' {
            '_'
        } else {
            c
        };
        m.push(d);
        assert(replace_forbidden(v@.take(i + 1)) =~= replace_forbidden(v@.take(i as int)).push(d));
        i += 1;
    }
    assert(v@.take(v@.len() as int) =~= v@);
    let a = skip_front(&m, 0, m.len(), CharClass::DotOrBlank);
    let b = skip_back(&m, a, m.len(), CharClass::DotOrBlank);
    assert(m@.subrange(0, m@.len() as int) =~= m@);
    if a == b {
        let mut u = String::new();
        push_str(&mut u, "untitled");
        proof {
            reveal_strlit("untitled");
            assert("untitled"@ =~= untitled());
        }
        u
    } else {
        string_of_range(&m, a, b)
    }
}

/// A file name that `sanitized` gives is never empty, holds no forbidden
/// character, neither begins nor ends with a dot or a blank, and is its own
/// sanitized form.
pub proof fn lemma_sanitized(title: Seq<char>)
    ensures
        sanitized(title).len() > 0,
        forall|i: int| 0 <= i < sanitized(title).len() ==> !forbidden(#[trigger] sanitized(title)[i]),
        !in_class(CharClass::DotOrBlank, sanitized(title)[0]),
        !in_class(CharClass::DotOrBlank, sanitized(title).last()),
        sanitized(sanitized(title)) == sanitized(title),
{
    let r = replace_forbidden(title);
    crate::text::lemma_trim_both(r, CharClass::DotOrBlank);
    let u = trim_both(r, CharClass::DotOrBlank);
    let s = sanitized(title);
    if u.len() > 0 {
        let (a, b) = choose|a: int, b: int| 0 <= a <= b <= r.len() && #[trigger] r.subrange(a, b) == u;
        assert forall|i: int| 0 <= i < u.len() implies !forbidden(#[trigger] u[i]) by {
            assert(u[i] == r[a + i]);
        }
    } else {
        assert(s =~= untitled());
    }
    assert(replace_forbidden(s) =~= s);
    crate::text::lemma_trim_both_fixed(s, CharClass::DotOrBlank);
}

/// The name of the file a note with this title is stored in.
pub fn note_file_name(title: &str) -> (r: String)
    ensures
        r@ == sanitized(title@) + seq!['.', 'm', 'd'],
{
    let mut r = sanitize_filename(title);
    push_str(&mut r, ".md");
    proof {
        reveal_strlit(".md");
        assert(".md"@ =~= seq!['.', 'm', 'd']);
    }
    r
}

pub open spec fn dashes() -> Seq<char> {
    seq!['-', '-', '-']
}

pub open spec fn closing_marker() -> Seq<char> {
    seq!['\n', '-', '-', '-']
}

/// The text of a note file: `---`, the front matter, `---`, then the body.
pub open spec fn note_text(front: Seq<char>, content: Seq<char>) -> Seq<char> {
    dashes() + seq!['\n'] + front + closing_marker() + seq!['\n'] + content
}

/// The text of a note file with front matter `front` and body `content`.
pub fn note_file_text(front: &str, content: &str) -> (r: String)
    ensures
        r@ == note_text(front@, content@),
{
    let mut r = String::new();
    push_str(&mut r, "---\n");
    push_str(&mut r, front);
    push_str(&mut r, "\n---\n");
    push_str(&mut r, content);
    proof {
        reveal_strlit("---\n");
        reveal_strlit("\n---\n");
        assert(r@ =~= note_text(front@, content@));
    }
    r
}

/// The front matter of a note file's text: after the opening `---` line, up
/// to the next line that starts with `---`.
pub open spec fn front_matter(content: Seq<char>) -> Option<Seq<char>> {
    let t = trim_start(content);
    if !starts_with(t, dashes()) {
        None
    } else {
        let after = t.skip(3);
        let nl = match find(after, seq!['\n']) {
            Some(p) => p,
            None => after.len() as int,
        };
        let rest = after.skip(nl);
        match find(rest, closing_marker()) {
            None => None,
            Some(e) => if e == 0 {
                Some(Seq::empty())
            } else {
                Some(rest.subrange(1, e))
            },
        }
    }
}

/// The body of a note file's text: what follows the front matter, trimmed;
/// a text without front matter is all body.
pub open spec fn body_of(raw: Seq<char>) -> Seq<char> {
    let t = trim_start(raw);
    if !starts_with(t, dashes()) {
        raw
    } else {
        let rest = t.skip(3);
        match find(rest, closing_marker()) {
            Some(p) => trim(rest.skip(p + 4)),
            None => Seq::empty(),
        }
    }
}

/// The text from `v[lo..]` where a trimmed start begins with `---`, if it does.
fn dashes_start(v: &Vec<char>) -> (r: Option<usize>)
    ensures
        match r {
            Some(a) => a + 3 <= v@.len() && starts_with(trim_start(v@), dashes()) && trim_start(v@)
                == v@.skip(a as int),
            None => !starts_with(trim_start(v@), dashes()),
        },
{
    let a = skip_front(v, 0, v.len(), CharClass::Space);
    proof {
        assert(v@.subrange(0, v@.len() as int) =~= v@);
        assert(v@.subrange(a as int, v@.len() as int) =~= v@.skip(a as int));
    }
    if a < v.len() && v.len() - a >= 3 && v[a] == '-' && v[a + 1] == '-' && v[a + 2] == '-' {
        assert(v@.skip(a as int).take(3) =~= dashes());
        Some(a)
    } else {
        proof {
            if starts_with(trim_start(v@), dashes()) {
                assert(v@.skip(a as int).take(3)[0] == v@[a as int]);
                assert(v@.skip(a as int).take(3)[1] == v@[a + 1]);
                assert(v@.skip(a as int).take(3)[2] == v@[a + 2]);
            }
        }
        None
    }
}

/// Finding in a suffix of `v` is finding in `v` from where the suffix starts.
proof fn lemma_find_suffix(v: Seq<char>, p: Seq<char>, a: int)
    requires
        0 <= a <= v.len(),
    ensures
        match crate::text::find_from(v, p, a) {
            Some(j) => find(v.skip(a), p) == Some(j - a),
            None => find(v.skip(a), p) is None,
        },
{
    crate::text::lemma_find_shift(v, p, a);
}

/// The front matter of a note file's text, if it has one.
pub fn extract_frontmatter(content: &str) -> (r: Option<String>)
    ensures
        match r {
            Some(f) => front_matter(content@) == Some(f@),
            None => front_matter(content@) is None,
        },
{
    let v = chars_of(content);
    let a = match dashes_start(&v) {
        Some(a) => a,
        None => return None,
    };
    assert(a + 3 <= v@.len());
    let ghost t = v@.skip(a as int);
    let ghost after = t.skip(3);
    let after_start = a + 3;
    assert(after =~= v@.skip(after_start as int));
    let nl_v = vec!['\n'];
    let nl = match find_from_exec(&v, &nl_v, after_start) {
        Some(p) => p,
        None => v.len(),
    };
    proof {
        assert(nl_v@ =~= seq!['\n']);
        lemma_find_suffix(v@, seq!['\n'], after_start as int);
        crate::text::lemma_find_from(v@, seq!['\n'], after_start as int);
    }
    assert(after_start <= nl <= v@.len());
    let ghost rest = after.skip(nl - after_start);
    assert(rest =~= v@.skip(nl as int));
    let marker = vec!['\n', '-', '-', '-'];
    assert(marker@ =~= closing_marker());
    proof {
        lemma_find_suffix(v@, closing_marker(), nl as int);
        crate::text::lemma_find_from(v@, closing_marker(), nl as int);
    }
    match find_from_exec(&v, &marker, nl) {
        None => None,
        Some(e) => {
            if e == nl {
                Some(String::new())
            } else {
                assert(rest.subrange(1, e - nl) =~= v@.subrange(nl + 1, e as int));
                Some(string_of_range(&v, nl + 1, e))
            }
        },
    }
}

/// The body of a note file's text.
pub fn extract_body(raw: &str) -> (r: String)
    ensures
        r@ == body_of(raw@),
{
    let v = chars_of(raw);
    let a = match dashes_start(&v) {
        Some(a) => a,
        None => return string_of(&v),
    };
    assert(a + 3 <= v@.len());
    let ghost rest = v@.skip(a as int).skip(3);
    let start = a + 3;
    assert(rest =~= v@.skip(start as int));
    let marker = vec!['\n', '-', '-', '-'];
    assert(marker@ =~= closing_marker());
    proof {
        lemma_find_suffix(v@, closing_marker(), start as int);
        crate::text::lemma_find_from(v@, closing_marker(), start as int);
    }
    match find_from_exec(&v, &marker, start) {
        None => String::new(),
        Some(p) => {
            assert(p + 4 <= v@.len() && v@.len() == v.len());
            let lo = skip_front(&v, p + 4, v.len(), CharClass::Space);
            let hi = skip_back(&v, lo, v.len(), CharClass::Space);
            assert(rest.skip(p - start + 4) =~= v@.subrange(p + 4, v@.len() as int));
            string_of_range(&v, lo, hi)
        },
    }
}

/// Reading a note file gives back the body that was written, trimmed, when
/// the front matter holds no line break and does not start with `---` (as
/// compact JSON never does).
pub proof fn lemma_body_round_trip(front: Seq<char>, content: Seq<char>)
    requires
        !front.contains('\n'),
        !starts_with(front, dashes()),
    ensures
        body_of(note_text(front, content)) == trim(content),
{
    let raw = note_text(front, content);
    assert(raw[0] == '-');
    assert(trim_start(raw) == raw);
    assert(raw.take(3) =~= dashes());
    let rest = raw.skip(3);
    let m = closing_marker();
    let p: int = front.len() as int + 1;
    assert(occurs_at(rest, m, p)) by {
        assert(rest.subrange(p, p + 4) =~= m);
    }
    assert forall|k: int| 0 <= k < p implies !occurs_at(rest, m, k) by {
        if occurs_at(rest, m, k) {
            assert(rest.subrange(k, k + 4)[0] == rest[k]);
            if k == 0 {
                if front.len() >= 3 {
                    assert(rest.subrange(0, 4)[1] == front[0]);
                    assert(rest.subrange(0, 4)[2] == front[1]);
                    assert(rest.subrange(0, 4)[3] == front[2]);
                    assert(front.take(3) =~= dashes());
                } else if front.len() > 0 {
                    assert(rest.subrange(0, 4)[front.len() as int + 1] == '\n');
                } else {
                    assert(rest.subrange(0, 4)[1] == '\n');
                }
            } else {
                assert(rest[k] == front[k - 1]);
                assert(front.contains(front[k - 1]));
            }
        }
    }
    lemma_find_from_unique(rest, m, 0, p);
    let tail = rest.skip(p + 4);
    assert(tail =~= seq!['\n'] + content);
    assert(tail.drop_first() =~= content);
    assert(trim_start(tail) == trim_start(content));
}

/// Reading a note file gives back the front matter that was written, when it
/// holds no line break and does not start with `---`.
pub proof fn lemma_front_matter_round_trip(front: Seq<char>, content: Seq<char>)
    requires
        !front.contains('\n'),
        !starts_with(front, dashes()),
    ensures
        front_matter(note_text(front, content)) == Some(front),
{
    let raw = note_text(front, content);
    assert(raw[0] == '-');
    assert(trim_start(raw) == raw);
    assert(raw.take(3) =~= dashes());
    let after = raw.skip(3);
    let nl = seq!['\n'];
    assert(occurs_at(after, nl, 0)) by {
        assert(after.subrange(0, 1) =~= nl);
    }
    lemma_find_from_unique(after, nl, 0, 0);
    let rest = after.skip(0);
    assert(rest =~= after);
    let m = closing_marker();
    let p: int = front.len() as int + 1;
    assert(occurs_at(rest, m, p)) by {
        assert(rest.subrange(p, p + 4) =~= m);
    }
    assert forall|k: int| 0 <= k < p implies !occurs_at(rest, m, k) by {
        if occurs_at(rest, m, k) {
            assert(rest.subrange(k, k + 4)[0] == rest[k]);
            if k == 0 {
                if front.len() >= 3 {
                    assert(rest.subrange(0, 4)[1] == front[0]);
                    assert(rest.subrange(0, 4)[2] == front[1]);
                    assert(rest.subrange(0, 4)[3] == front[2]);
                    assert(front.take(3) =~= dashes());
                } else if front.len() > 0 {
                    assert(rest.subrange(0, 4)[front.len() as int + 1] == '\n');
                } else {
                    assert(rest.subrange(0, 4)[1] == '\n');
                }
            } else {
                assert(rest[k] == front[k - 1]);
                assert(front.contains(front[k - 1]));
            }
        }
    }
    lemma_find_from_unique(rest, m, 0, p);
    assert(rest.subrange(1, p) =~= front);
}

} // verus!
