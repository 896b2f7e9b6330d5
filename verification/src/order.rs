//! The orders notes are listed in, and a stable sort by them.
use vstd::prelude::*;
use crate::model::{notes_view, priority_rank, NoteIndexModel, NoteView};
use crate::time::Timestamp;

verus! {

/// `a` is an earlier instant than `b` (the order of chrono's `DateTime`).
pub open spec fn ts_lt(a: Timestamp, b: Timestamp) -> bool {
    a.secs < b.secs || (a.secs == b.secs && a.nanos < b.nanos)
}

/// `a` comes before `b` in lexicographic order of code points (the order of
/// `str`, whose UTF-8 bytes order as the code points do).
pub open spec fn chars_lt(a: Seq<char>, b: Seq<char>) -> bool
    decreases a.len(),
{
    if a.len() == 0 {
        b.len() > 0
    } else if b.len() == 0 {
        false
    } else if a[0] != b[0] {
        (a[0] as int) < (b[0] as int)
    } else {
        chars_lt(a.drop_first(), b.drop_first())
    }
}

/// The lexicographic order is irreflexive.
pub proof fn lemma_chars_lt_irreflexive(a: Seq<char>)
    ensures
        !chars_lt(a, a),
    decreases a.len(),
{
    if a.len() > 0 {
        lemma_chars_lt_irreflexive(a.drop_first());
    }
}

/// The lexicographic order is transitive.
pub proof fn lemma_chars_lt_transitive(a: Seq<char>, b: Seq<char>, c: Seq<char>)
    requires
        chars_lt(a, b),
        chars_lt(b, c),
    ensures
        chars_lt(a, c),
    decreases a.len(),
{
    if a.len() > 0 && a[0] == b[0] && b[0] == c[0] {
        lemma_chars_lt_transitive(a.drop_first(), b.drop_first(), c.drop_first());
    }
}

/// Two different texts are ordered one way or the other.
pub proof fn lemma_chars_lt_total(a: Seq<char>, b: Seq<char>)
    requires
        a != b,
    ensures
        chars_lt(a, b) || chars_lt(b, a),
    decreases a.len(),
{
    if a.len() == 0 && b.len() == 0 {
        assert(a =~= b);
    } else if a.len() > 0 && b.len() > 0 && a[0] == b[0] {
        if a.drop_first() == b.drop_first() {
            assert(a =~= seq![a[0]] + a.drop_first());
            assert(b =~= seq![b[0]] + b.drop_first());
        }
        lemma_chars_lt_total(a.drop_first(), b.drop_first());
    } else if a.len() > 0 && b.len() > 0 {
        assert((a[0] as int) != (b[0] as int));
    }
}

/// The lexicographic order is a strict total order.
pub proof fn lemma_chars_lt(a: Seq<char>, b: Seq<char>, c: Seq<char>)
    ensures
        !chars_lt(a, a),
        chars_lt(a, b) ==> !chars_lt(b, a),
        chars_lt(a, b) && chars_lt(b, c) ==> chars_lt(a, c),
        a != b ==> chars_lt(a, b) || chars_lt(b, a),
{
    lemma_chars_lt_irreflexive(a);
    if chars_lt(a, b) && chars_lt(b, a) {
        lemma_chars_lt_transitive(a, b, a);
    }
    if chars_lt(a, b) && chars_lt(b, c) {
        lemma_chars_lt_transitive(a, b, c);
    }
    if a != b {
        lemma_chars_lt_total(a, b);
    }
}

/// Whether `a` comes before `b` in lexicographic order.
pub fn text_before(a: &str, b: &str) -> (r: bool)
    ensures
        r == chars_lt(a@, b@),
{
    let x = crate::text::chars_of(a);
    let y = crate::text::chars_of(b);
    let mut i: usize = 0;
    assert(x@.skip(0) =~= x@);
    assert(y@.skip(0) =~= y@);
    while i < x.len() && i < y.len() && x[i] == y[i]
        invariant
            i <= x.len(),
            i <= y.len(),
            chars_lt(x@, y@) == chars_lt(x@.skip(i as int), y@.skip(i as int)),
        decreases x.len() - i,
    {
        assert(x@.skip(i as int).drop_first() =~= x@.skip(i + 1));
        assert(y@.skip(i as int).drop_first() =~= y@.skip(i + 1));
        i += 1;
    }
    let r = if i == x.len() {
        i < y.len()
    } else if i == y.len() {
        false
    } else {
        x[i] < y[i]
    };
    proof {
        assert(x@.skip(i as int).len() == x@.len() - i);
        if i < x.len() && i < y.len() {
            assert(x@.skip(i as int)[0] == x@[i as int]);
            assert(y@.skip(i as int)[0] == y@[i as int]);
        }
    }
    r
}

/// The field notes are listed by.
#[derive(Debug, Clone, Copy, PartialEq, Eq, Structural)]
pub enum SortKey {
    Created,
    Modified,
    Title,
    Priority,
}

/// The sort field a `--sort` value names: `modified`, `title` or
/// `priority`; creation time otherwise (and by default).
pub open spec fn sort_key_named(s: Option<Seq<char>>) -> SortKey {
    match s {
        Some(t) => if t == seq!['m', 'o', 'd', 'i', 'f', 'i', 'e', 'd'] {
            SortKey::Modified
        } else if t == seq!['t', 'i', 't', 'l', 'e'] {
            SortKey::Title
        } else if t == seq!['p', 'r', 'i', 'o', 'r', 'i', 't', 'y'] {
            SortKey::Priority
        } else {
            SortKey::Created
        },
        None => SortKey::Created,
    }
}

/// The sort field that `s` names.
pub fn sort_key_of(s: &Option<String>) -> (k: SortKey)
    ensures
        k == sort_key_named(match s {
            Some(t) => Some(t@),
            None => None,
        }),
{
    proof {
        reveal_strlit("modified");
        reveal_strlit("title");
        reveal_strlit("priority");
        assert("modified"@ =~= seq!['m', 'o', 'd', 'i', 'f', 'i', 'e', 'd']);
        assert("title"@ =~= seq!['t', 'i', 't', 'l', 'e']);
        assert("priority"@ =~= seq!['p', 'r', 'i', 'o', 'r', 'i', 't', 'y']);
    }
    match s {
        Some(t) => if crate::text::str_eq(t.as_str(), "modified") {
            SortKey::Modified
        } else if crate::text::str_eq(t.as_str(), "title") {
            SortKey::Title
        } else if crate::text::str_eq(t.as_str(), "priority") {
            SortKey::Priority
        } else {
            SortKey::Created
        },
        None => SortKey::Created,
    }
}

/// `a` sorts strictly before `b` by the field `by`.
pub open spec fn key_lt(by: SortKey, a: NoteView, b: NoteView) -> bool {
    match by {
        SortKey::Created => ts_lt(a.created, b.created),
        SortKey::Modified => ts_lt(a.modified, b.modified),
        SortKey::Title => chars_lt(a.title, b.title),
        SortKey::Priority => priority_rank(a.priority) < priority_rank(b.priority),
    }
}

/// `key_lt` is a strict weak order.
pub proof fn lemma_key_lt(by: SortKey, a: NoteView, b: NoteView, c: NoteView)
    ensures
        !key_lt(by, a, a),
        key_lt(by, a, b) && key_lt(by, b, c) ==> key_lt(by, a, c),
        key_lt(by, a, c) ==> key_lt(by, a, b) || key_lt(by, b, c),
{
    if by == SortKey::Title {
        lemma_chars_lt(a.title, b.title, c.title);
        lemma_chars_lt(a.title, c.title, b.title);
        lemma_chars_lt(b.title, c.title, a.title);
        lemma_chars_lt(b.title, a.title, c.title);
        lemma_chars_lt(c.title, a.title, b.title);
    }
}

/// Whether `a` sorts strictly before `b` by `by`.
pub fn key_before(by: SortKey, a: &NoteIndexModel, b: &NoteIndexModel) -> (r: bool)
    ensures
        r == key_lt(by, a@, b@),
{
    match by {
        SortKey::Created => a.created.secs < b.created.secs || (a.created.secs == b.created.secs
            && a.created.nanos < b.created.nanos),
        SortKey::Modified => a.modified.secs < b.modified.secs || (a.modified.secs
            == b.modified.secs && a.modified.nanos < b.modified.nanos),
        SortKey::Title => text_before(a.title.as_str(), b.title.as_str()),
        SortKey::Priority => crate::model::priority_after(b.priority, a.priority),
    }
}

/// Position `i` of `src` comes before position `j` in the stable order by
/// `by`: by the field, and by position among equal fields.
pub open spec fn pos_before(src: Seq<NoteView>, by: SortKey, i: int, j: int) -> bool {
    key_lt(by, src[i], src[j]) || (!key_lt(by, src[j], src[i]) && i < j)
}

/// `ps` holds each position below `n` once.
pub open spec fn is_perm(ps: Seq<usize>, n: nat) -> bool {
    &&& ps.len() == n
    &&& forall|a: int| 0 <= a < ps.len() ==> #[trigger] ps[a] < n
    &&& forall|a: int, b: int| 0 <= a < b < ps.len() ==> ps[a] != ps[b]
}

/// `out` is `src` sorted stably by `by`.
pub open spec fn stable_sorted(src: Seq<NoteView>, by: SortKey, out: Seq<NoteView>) -> bool {
    exists|ps: Seq<usize>|
        #![trigger is_perm(ps, src.len())]
        is_perm(ps, src.len()) && (forall|a: int, b: int|
            0 <= a < b < ps.len() ==> pos_before(src, by, #[trigger] ps[a] as int, #[trigger] ps[b] as int))
            && out.len() == ps.len() && forall|j: int| 0 <= j < ps.len() ==> out[j] == src[#[trigger] ps[j] as int]
}

/// The positions of `v` in the stable order by `by`.
fn sorted_positions(v: &Vec<NoteIndexModel>, by: SortKey) -> (ps: Vec<usize>)
    ensures
        is_perm(ps@, v@.len()),
        forall|a: int, b: int|
            0 <= a < b < ps@.len() ==> pos_before(notes_view(v@), by, #[trigger] ps@[a] as int, #[trigger] ps@[b] as int),
{
    let ghost src = notes_view(v@);
    let mut ps: Vec<usize> = Vec::new();
    let mut k: usize = 0;
    while k < v.len()
        invariant
            k <= v.len(),
            src == notes_view(v@),
            is_perm(ps@, k as nat),
            forall|a: int, b: int|
                0 <= a < b < ps@.len() ==> pos_before(src, by, #[trigger] ps@[a] as int, #[trigger] ps@[b] as int),
        decreases v.len() - k,
    {
        let mut j: usize = 0;
        while j < ps.len() && !key_before(by, &v[k], &v[ps[j]])
            invariant
                j <= ps@.len(),
                k < v@.len(),
                src == notes_view(v@),
                is_perm(ps@, k as nat),
                forall|a: int| 0 <= a < j ==> !key_lt(by, src[k as int], src[#[trigger] ps@[a] as int]),
            decreases ps.len() - j,
        {
            j += 1;
        }
        proof {
            assert forall|b: int| j <= b < ps@.len() implies key_lt(by, src[k as int], src[#[trigger] ps@[b] as int]) by {
                if b > j {
                    assert(pos_before(src, by, ps@[j as int] as int, ps@[b] as int));
                    lemma_key_lt(by, src[k as int], src[ps@[j as int] as int], src[ps@[b] as int]);
                    lemma_key_lt(by, src[k as int], src[ps@[b] as int], src[ps@[j as int] as int]);
                }
            }
        }
        let ghost old_ps = ps@;
        ps.insert(j, k);
        proof {
            old_ps.insert_ensures(j as int, k);
            assert forall|a: int| 0 <= a < ps@.len() implies #[trigger] ps@[a] < k + 1 by {
                if a < j {
                    assert(ps@[a] == old_ps[a]);
                } else if a > j {
                    assert(ps@[a] == old_ps[a - 1]);
                }
            }
            assert forall|a: int, b: int| 0 <= a < b < ps@.len() implies ps@[a] != ps@[b] by {
                if a < j && b < j {
                    assert(ps@[a] == old_ps[a] && ps@[b] == old_ps[b]);
                } else if a < j && b > j {
                    assert(ps@[a] == old_ps[a] && ps@[b] == old_ps[b - 1]);
                } else if a > j {
                    assert(ps@[a] == old_ps[a - 1] && ps@[b] == old_ps[b - 1]);
                } else if a == j {
                    assert(ps@[b] == old_ps[b - 1]);
                } else {
                    assert(ps@[a] == old_ps[a]);
                }
            }
            assert forall|a: int, b: int| 0 <= a < b < ps@.len() implies pos_before(src, by, #[trigger] ps@[a] as int, #[trigger] ps@[b] as int) by {
                lemma_key_lt(by, src[k as int], src[k as int], src[k as int]);
                if b < j {
                    assert(ps@[a] == old_ps[a] && ps@[b] == old_ps[b]);
                } else if b == j {
                    assert(ps@[a] == old_ps[a]);
                    assert(!key_lt(by, src[k as int], src[old_ps[a] as int]));
                } else if a < j {
                    assert(ps@[a] == old_ps[a] && ps@[b] == old_ps[b - 1]);
                } else if a == j {
                    assert(ps@[b] == old_ps[b - 1]);
                    assert(key_lt(by, src[k as int], src[old_ps[b - 1] as int]));
                } else {
                    assert(ps@[a] == old_ps[a - 1] && ps@[b] == old_ps[b - 1]);
                }
            }
        }
        k += 1;
    }
    ps
}

/// `v` sorted stably by `by`.
pub fn sort_notes(v: &Vec<NoteIndexModel>, by: SortKey) -> (r: Vec<NoteIndexModel>)
    ensures
        stable_sorted(notes_view(v@), by, notes_view(r@)),
{
    let ps = sorted_positions(v, by);
    let mut r: Vec<NoteIndexModel> = Vec::new();
    let mut j: usize = 0;
    while j < ps.len()
        invariant
            j <= ps@.len(),
            is_perm(ps@, v@.len()),
            r@.len() == j,
            forall|t: int| 0 <= t < j ==> (#[trigger] r@[t])@ == notes_view(v@)[ps@[t] as int],
        decreases ps.len() - j,
    {
        let p = ps[j];
        r.push(v[p].clone());
        j += 1;
    }
    proof {
        let src = notes_view(v@);
        let out = notes_view(r@);
        assert forall|t: int| 0 <= t < ps@.len() implies out[t] == src[#[trigger] ps@[t] as int] by {
            assert(out[t] == r@[t]@);
        }
        assert(is_perm(ps@, src.len()));
    }
    r
}

} // verus!
