//! Putting a space after every emote that runs into the next character of a reply.

use vstd::prelude::*;
use vstd::string::*;
use crate::unicode::chars_of;
use crate::text::{first_occurrence, occurs_at, contains_seq, views, find_from, to_string};

verus! {

broadcast use vstd::string::group_string_axioms;

/// The first occurrence of `e` at or after `from` lies within `s`, and no occurrence lies
/// between `from` and it; without one, no occurrence starts at or after `from`.
pub proof fn lemma_first_occurrence_bounds(s: Seq<char>, e: Seq<char>, from: int)
    ensures
        first_occurrence(s, e, from) matches Some(k) ==> from <= k && k + e.len() <= s.len()
            && occurs_at(s, e, k) && forall|p: int| from <= p < k ==> !occurs_at(s, e, p),
        first_occurrence(s, e, from) is None && from >= 0 ==> forall|p: int| from <= p ==> !occurs_at(s, e, p),
    decreases s.len() - from,
{
    if from < 0 || from + e.len() > s.len() {
    } else if occurs_at(s, e, from) {
    } else if e.len() == 0 {
        assert(s.subrange(from, from) =~= e);
    } else {
        lemma_first_occurrence_bounds(s, e, from + 1);
    }
}

/// One scan of `s` for the emote `e`, from character position `from` on: each occurrence
/// that is followed by a character other than a space gets a space inserted right after it,
/// and the scan goes on past that space; an occurrence followed by a space is passed over
/// together with the space; an occurrence at the end of the text ends the scan. (An empty
/// emote is not scanned for; `fix_emote_spacing` does not accept one.)
pub open spec fn spacing_pass(s: Seq<char>, e: Seq<char>, from: int) -> Seq<char>
    decreases s.len() + 1 - from,
{
    if e.len() == 0 || from < 0 || from > s.len() {
        s
    } else {
        match first_occurrence(s, e, from) {
            None => s,
            Some(k) => {
                proof {
                    lemma_first_occurrence_bounds(s, e, from);
                }
                let kend = k + e.len();
                if kend == s.len() {
                    s
                } else if s[kend] != ' ' {
                    spacing_pass(s.take(kend) + seq![' '] + s.skip(kend), e, kend + 1)
                } else {
                    spacing_pass(s, e, kend + 1)
                }
            },
        }
    }
}

/// The scans for all emotes in turn, each over the text that the previous one left.
pub open spec fn spacing_all(s: Seq<char>, emotes: Seq<Seq<char>>) -> Seq<char>
    decreases emotes.len(),
{
    if emotes.len() == 0 {
        s
    } else {
        spacing_all(spacing_pass(s, emotes[0], 0), emotes.drop_first())
    }
}

/// No emote is empty.
pub open spec fn all_nonempty(emotes: Seq<Seq<char>>) -> bool {
    forall|i: int| 0 <= i < emotes.len() ==> (#[trigger] emotes[i]).len() > 0
}

/// `e` holds no space.
pub open spec fn space_free(e: Seq<char>) -> bool {
    forall|i: int| 0 <= i < e.len() ==> e[i] != ' '
}

/// The occurrence of `e` at `k` ends the text or is followed by a space.
pub open spec fn followed(t: Seq<char>, e: Seq<char>, k: int) -> bool {
    k + e.len() == t.len() || t[k + e.len()] == ' '
}

/// Every occurrence of `e` before position `from` ends the text or is followed by a space.
pub open spec fn spaced_before(t: Seq<char>, e: Seq<char>, from: int) -> bool {
    forall|p: int| 0 <= p < from && occurs_at(t, e, p) ==> followed(t, e, p)
}

/// Every occurrence of `e` ends the text or is followed by a space.
pub open spec fn spaced(t: Seq<char>, e: Seq<char>) -> bool {
    forall|p: int| occurs_at(t, e, p) ==> followed(t, e, p)
}

/// `t` is `s` with zero or more space characters inserted.
pub open spec fn spaces_inserted(s: Seq<char>, t: Seq<char>) -> bool
    decreases t.len(),
{
    if t.len() == 0 {
        s.len() == 0
    } else if s.len() > 0 && s.last() == t.last() && spaces_inserted(s.drop_last(), t.drop_last()) {
        true
    } else {
        t.last() == ' ' && spaces_inserted(s, t.drop_last())
    }
}

/// Every sequence is itself with no spaces inserted.
pub proof fn lemma_spaces_inserted_refl(s: Seq<char>)
    ensures
        spaces_inserted(s, s),
    decreases s.len(),
{
    if s.len() > 0 {
        lemma_spaces_inserted_refl(s.drop_last());
    }
}

/// Inserting spaces into a sequence that has spaces inserted inserts spaces.
pub proof fn lemma_spaces_inserted_trans(a: Seq<char>, b: Seq<char>, c: Seq<char>)
    requires
        spaces_inserted(a, b),
        spaces_inserted(b, c),
    ensures
        spaces_inserted(a, c),
    decreases c.len(),
{
    if c.len() == 0 {
    } else if b.len() > 0 && b.last() == c.last() && spaces_inserted(b.drop_last(), c.drop_last()) {
        if a.len() > 0 && a.last() == b.last() && spaces_inserted(a.drop_last(), b.drop_last()) {
            lemma_spaces_inserted_trans(a.drop_last(), b.drop_last(), c.drop_last());
        } else {
            lemma_spaces_inserted_trans(a, b.drop_last(), c.drop_last());
        }
    } else {
        lemma_spaces_inserted_trans(a, b, c.drop_last());
    }
}

/// Inserting one space at position `k`.
pub proof fn lemma_spaces_inserted_one(s: Seq<char>, k: int)
    requires
        0 <= k <= s.len(),
    ensures
        spaces_inserted(s, s.take(k) + seq![' '] + s.skip(k)),
    decreases s.len(),
{
    let t = s.take(k) + seq![' '] + s.skip(k);
    if k == s.len() {
        assert(t.drop_last() =~= s);
        lemma_spaces_inserted_refl(s);
    } else {
        let s2 = s.drop_last();
        assert(t.drop_last() =~= s2.take(k) + seq![' '] + s2.skip(k));
        assert(t.last() == s.last());
        lemma_spaces_inserted_one(s2, k);
    }
}


/// A scan only inserts spaces.
pub proof fn lemma_spacing_pass_inserts(s: Seq<char>, e: Seq<char>, from: int)
    ensures
        spaces_inserted(s, spacing_pass(s, e, from)),
    decreases s.len() + 1 - from,
{
    lemma_first_occurrence_bounds(s, e, from);
    if e.len() == 0 || from < 0 || from > s.len() {
        lemma_spaces_inserted_refl(s);
    } else {
        match first_occurrence(s, e, from) {
            None => {
                lemma_spaces_inserted_refl(s);
            },
            Some(k) => {
                let kend = k + e.len();
                if kend == s.len() {
                    lemma_spaces_inserted_refl(s);
                } else if s[kend] != ' ' {
                    let t = s.take(kend) + seq![' '] + s.skip(kend);
                    lemma_spacing_pass_inserts(t, e, kend + 1);
                    lemma_spaces_inserted_one(s, kend);
                    lemma_spaces_inserted_trans(s, t, spacing_pass(t, e, kend + 1));
                } else {
                    lemma_spacing_pass_inserts(s, e, kend + 1);
                }
            },
        }
    }
}

/// A scan of a text in which the emote does not occur leaves the text as it is.
pub proof fn lemma_spacing_pass_absent(s: Seq<char>, e: Seq<char>)
    requires
        !contains_seq(s, e),
    ensures
        spacing_pass(s, e, 0) == s,
{
    lemma_first_occurrence_bounds(s, e, 0);
    if let Some(k) = first_occurrence(s, e, 0) {
        assert(occurs_at(s, e, k));
    }
}

/// Law: fixing the spacing of a reply only inserts space characters; every other character of
/// the reply stays, in order.
pub proof fn law_spacing_only_inserts_spaces(input: Seq<char>, emotes: Seq<Seq<char>>)
    ensures
        spaces_inserted(input, spacing_all(input, emotes)),
    decreases emotes.len(),
{
    if emotes.len() == 0 {
        lemma_spaces_inserted_refl(input);
    } else {
        let t = spacing_pass(input, emotes[0], 0);
        lemma_spacing_pass_inserts(input, emotes[0], 0);
        law_spacing_only_inserts_spaces(t, emotes.drop_first());
        lemma_spaces_inserted_trans(input, t, spacing_all(t, emotes.drop_first()));
    }
}

/// Law: a reply in which no emote occurs comes back unchanged.
pub proof fn law_spacing_without_emotes(input: Seq<char>, emotes: Seq<Seq<char>>)
    requires
        forall|i: int| 0 <= i < emotes.len() ==> !contains_seq(input, #[trigger] emotes[i]),
    ensures
        spacing_all(input, emotes) == input,
    decreases emotes.len(),
{
    if emotes.len() > 0 {
        assert(!contains_seq(input, emotes[0]));
        lemma_spacing_pass_absent(input, emotes[0]);
        let rest = emotes.drop_first();
        assert forall|i: int| 0 <= i < rest.len() implies !contains_seq(input, #[trigger] rest[i]) by {
            assert(rest[i] == emotes[i + 1]);
        }
        law_spacing_without_emotes(input, rest);
    }
}

/// The length bound of one scan, from position `from` on.
proof fn lemma_spacing_pass_length(s: Seq<char>, e: Seq<char>, from: int)
    requires
        e.len() > 0,
        0 <= from <= s.len(),
    ensures
        spacing_pass(s, e, from).len() + from <= 2 * s.len(),
    decreases s.len() + 1 - from,
{
    lemma_first_occurrence_bounds(s, e, from);
    match first_occurrence(s, e, from) {
        None => {},
        Some(k) => {
            let kend = k + e.len();
            if kend == s.len() {
            } else if s[kend] != ' ' {
                let t = s.take(kend) + seq![' '] + s.skip(kend);
                lemma_spacing_pass_length(t, e, kend + 1);
            } else {
                lemma_spacing_pass_length(s, e, kend + 1);
            }
        },
    }
}

/// Law: one scan at most doubles the length of a reply: each space it inserts stands before
/// a different character of the reply.
pub proof fn law_spacing_pass_length(s: Seq<char>, e: Seq<char>)
    requires
        e.len() > 0,
    ensures
        spacing_pass(s, e, 0).len() <= 2 * s.len(),
{
    lemma_spacing_pass_length(s, e, 0);
}

/// The number of places where two characters other than a space stand side by side.
pub open spec fn tight_pairs(t: Seq<char>) -> nat
    decreases t.len(),
{
    if t.len() < 2 {
        0
    } else {
        tight_pairs(t.drop_last()) + if t[t.len() - 2] != ' ' && t.last() != ' ' { 1nat } else { 0nat }
    }
}

/// The tight pairs of `a + b`: those of each part, and one more where they meet between two
/// characters other than a space.
proof fn lemma_tight_pairs_concat(a: Seq<char>, b: Seq<char>)
    ensures
        tight_pairs(a + b) == tight_pairs(a) + tight_pairs(b) + if a.len() > 0 && b.len() > 0
            && a.last() != ' ' && b[0] != ' ' { 1nat } else { 0nat },
    decreases b.len(),
{
    if b.len() == 0 {
        assert(a + b =~= a);
    } else {
        lemma_tight_pairs_concat(a, b.drop_last());
        assert((a + b).drop_last() =~= a + b.drop_last());
        if b.len() == 1 {
            assert(b.drop_last() =~= Seq::<char>::empty());
            assert(a + b.drop_last() =~= a);
        }
    }
}

/// The tight pairs never outnumber the characters.
proof fn lemma_tight_pairs_bound(t: Seq<char>)
    ensures
        tight_pairs(t) <= t.len(),
    decreases t.len(),
{
    if t.len() >= 2 {
        lemma_tight_pairs_bound(t.drop_last());
    }
}

/// One scan for a space-free emote keeps the length plus the tight pairs: each space it puts in
/// parts two characters other than a space.
proof fn lemma_spacing_pass_tight(s: Seq<char>, e: Seq<char>, from: int)
    requires
        e.len() > 0,
        space_free(e),
    ensures
        spacing_pass(s, e, from).len() + tight_pairs(spacing_pass(s, e, from)) == s.len() + tight_pairs(s),
    decreases s.len() + 1 - from,
{
    if from < 0 || from > s.len() {
    } else {
        lemma_first_occurrence_bounds(s, e, from);
        match first_occurrence(s, e, from) {
            None => {},
            Some(k) => {
                let kend = k + e.len();
                if kend == s.len() {
                } else if s[kend] != ' ' {
                    let a = s.take(kend);
                    let b = s.skip(kend);
                    let t = a + seq![' '] + b;
                    assert(s.subrange(k, kend)[e.len() - 1] == s[kend - 1]);
                    assert(s =~= a + b);
                    lemma_tight_pairs_concat(a, b);
                    lemma_tight_pairs_concat(a, seq![' ']);
                    lemma_tight_pairs_concat(a + seq![' '], b);
                    lemma_spacing_pass_tight(t, e, kend + 1);
                } else {
                    lemma_spacing_pass_tight(s, e, kend + 1);
                }
            },
        }
    }
}

/// Law: fixing the spacing for emotes that are not empty and hold no space keeps the length
/// plus the tight pairs, so the reply at most doubles in length: every space put in stands
/// between two characters of the reply that stood side by side.
pub proof fn law_spacing_length(input: Seq<char>, emotes: Seq<Seq<char>>)
    requires
        forall|i: int| 0 <= i < emotes.len() ==> (#[trigger] emotes[i]).len() > 0 && space_free(emotes[i]),
    ensures
        spacing_all(input, emotes).len() + tight_pairs(spacing_all(input, emotes))
            == input.len() + tight_pairs(input),
        spacing_all(input, emotes).len() <= 2 * input.len(),
    decreases emotes.len(),
{
    if emotes.len() > 0 {
        let once = spacing_pass(input, emotes[0], 0);
        lemma_spacing_pass_tight(input, emotes[0], 0);
        let rest = emotes.drop_first();
        assert forall|i: int| 0 <= i < rest.len() implies (#[trigger] rest[i]).len() > 0
            && space_free(rest[i]) by {
            assert(rest[i] == emotes[i + 1]);
        }
        law_spacing_length(once, rest);
    }
    lemma_tight_pairs_bound(spacing_all(input, emotes));
    lemma_tight_pairs_bound(input);
}

/// An occurrence of a space-free emote cannot cover a space.
proof fn lemma_no_space_inside(t: Seq<char>, e: Seq<char>, p: int, q: int)
    requires
        space_free(e),
        occurs_at(t, e, p),
        p <= q < p + e.len(),
    ensures
        t[q] != ' ',
{
    assert(t.subrange(p, p + e.len())[q - p] == t[q]);
}

/// Inserting a space keeps every occurrence of a space-free emote followed by a space or the end.
proof fn lemma_insert_keeps_spaced(s: Seq<char>, q: int, e: Seq<char>)
    requires
        0 <= q <= s.len(),
        e.len() > 0,
        space_free(e),
        spaced(s, e),
    ensures
        spaced(s.take(q) + seq![' '] + s.skip(q), e),
{
    let t = s.take(q) + seq![' '] + s.skip(q);
    let m = e.len();
    assert forall|p: int| occurs_at(t, e, p) implies followed(t, e, p) by {
        if p <= q && q < p + m {
            assert(t[q] == ' ');
            lemma_no_space_inside(t, e, p, q);
        } else if p + m <= q {
            assert(t.subrange(p, p + m) =~= s.subrange(p, p + m));
            assert(occurs_at(s, e, p));
            if p + m < q {
                assert(t[p + m] == s[p + m]);
            }
        } else {
            assert(t.subrange(p, p + m) =~= s.subrange(p - 1, p - 1 + m));
            assert(occurs_at(s, e, p - 1));
            if p + m < t.len() {
                assert(t[p + m] == s[p + m - 1]);
            }
        }
    }
}

/// A scan for one emote keeps every occurrence of another space-free emote followed by a space
/// or the end.
proof fn lemma_pass_keeps_spaced(s: Seq<char>, e2: Seq<char>, from: int, e: Seq<char>)
    requires
        e.len() > 0,
        space_free(e),
        spaced(s, e),
    ensures
        spaced(spacing_pass(s, e2, from), e),
    decreases s.len() + 1 - from,
{
    lemma_first_occurrence_bounds(s, e2, from);
    if e2.len() == 0 || from < 0 || from > s.len() {
    } else {
        match first_occurrence(s, e2, from) {
            None => {},
            Some(k) => {
                let kend = k + e2.len();
                if kend == s.len() {
                } else if s[kend] != ' ' {
                    lemma_insert_keeps_spaced(s, kend, e);
                    lemma_pass_keeps_spaced(s.take(kend) + seq![' '] + s.skip(kend), e2, kend + 1, e);
                } else {
                    lemma_pass_keeps_spaced(s, e2, kend + 1, e);
                }
            },
        }
    }
}

/// A scan for a space-free emote leaves every occurrence of it followed by a space or the end.
proof fn lemma_pass_establishes_spaced(s: Seq<char>, e: Seq<char>, from: int)
    requires
        e.len() > 0,
        space_free(e),
        0 <= from <= s.len(),
        spaced_before(s, e, from),
    ensures
        spaced(spacing_pass(s, e, from), e),
    decreases s.len() + 1 - from,
{
    lemma_first_occurrence_bounds(s, e, from);
    let m = e.len();
    match first_occurrence(s, e, from) {
        None => {
            assert forall|p: int| occurs_at(s, e, p) implies followed(s, e, p) by {
                assert(p < from);
            }
        },
        Some(k) => {
            let kend = k + m;
            if kend == s.len() {
                assert forall|p: int| occurs_at(s, e, p) implies followed(s, e, p) by {
                    if from <= p && p < k {
                    } else if p > k {
                    }
                }
            } else if s[kend] != ' ' {
                let t = s.take(kend) + seq![' '] + s.skip(kend);
                assert forall|p: int| 0 <= p < kend + 1 && occurs_at(t, e, p) implies followed(t, e, p) by {
                    assert(t[kend] == ' ');
                    if p + m > kend {
                        if p <= kend {
                            lemma_no_space_inside(t, e, p, kend);
                        }
                    } else {
                        assert(t.subrange(p, p + m) =~= s.subrange(p, p + m));
                        assert(occurs_at(s, e, p));
                        if p < from {
                            if p + m < kend {
                                assert(t[p + m] == s[p + m]);
                            }
                        } else if p < k {
                        } else {
                            assert(p == k);
                        }
                    }
                }
                lemma_pass_establishes_spaced(t, e, kend + 1);
            } else {
                assert forall|p: int| 0 <= p < kend + 1 && occurs_at(s, e, p) implies followed(s, e, p) by {
                    if p < from {
                    } else if p < k {
                    } else if p > k {
                        if p <= kend {
                            lemma_no_space_inside(s, e, p, kend);
                        }
                    }
                }
                lemma_pass_establishes_spaced(s, e, kend + 1);
            }
        },
    }
}

/// A scan for an emote whose occurrences are all followed by a space or the end changes nothing.
proof fn lemma_pass_identity(s: Seq<char>, e: Seq<char>, from: int)
    requires
        spaced(s, e),
    ensures
        spacing_pass(s, e, from) == s,
    decreases s.len() + 1 - from,
{
    lemma_first_occurrence_bounds(s, e, from);
    if e.len() == 0 || from < 0 || from > s.len() {
    } else {
        match first_occurrence(s, e, from) {
            None => {},
            Some(k) => {
                let kend = k + e.len();
                if kend < s.len() {
                    assert(followed(s, e, k));
                    lemma_pass_identity(s, e, kend + 1);
                }
            },
        }
    }
}

/// The scans for all emotes keep every occurrence of a space-free emote followed by a space or
/// the end.
proof fn lemma_all_keeps_spaced(s: Seq<char>, emotes: Seq<Seq<char>>, e: Seq<char>)
    requires
        e.len() > 0,
        space_free(e),
        spaced(s, e),
    ensures
        spaced(spacing_all(s, emotes), e),
    decreases emotes.len(),
{
    if emotes.len() > 0 {
        lemma_pass_keeps_spaced(s, emotes[0], 0, e);
        lemma_all_keeps_spaced(spacing_pass(s, emotes[0], 0), emotes.drop_first(), e);
    }
}

/// Law: once the spacing is fixed, every occurrence of every emote ends the reply or is
/// followed by a space (for emotes that are not empty and hold no space).
pub proof fn law_spacing_leaves_emotes_followed(input: Seq<char>, emotes: Seq<Seq<char>>)
    requires
        forall|i: int| 0 <= i < emotes.len() ==> (#[trigger] emotes[i]).len() > 0 && space_free(emotes[i]),
    ensures
        forall|i: int| 0 <= i < emotes.len() ==> spaced(spacing_all(input, emotes), #[trigger] emotes[i]),
    decreases emotes.len(),
{
    if emotes.len() > 0 {
        let e = emotes[0];
        let t = spacing_pass(input, e, 0);
        let rest = emotes.drop_first();
        assert(e.len() > 0 && space_free(e));
        lemma_pass_establishes_spaced(input, e, 0);
        lemma_all_keeps_spaced(t, rest, e);
        assert forall|i: int| 0 <= i < rest.len() implies (#[trigger] rest[i]).len() > 0 && space_free(rest[i]) by {
            assert(rest[i] == emotes[i + 1]);
        }
        law_spacing_leaves_emotes_followed(t, rest);
        assert forall|i: int| 0 <= i < emotes.len() implies spaced(spacing_all(input, emotes), #[trigger] emotes[i]) by {
            if i > 0 {
                assert(emotes[i] == rest[i - 1]);
            }
        }
    }
}

/// The scans change nothing where every emote is already followed by a space or the end.
proof fn lemma_all_identity(s: Seq<char>, emotes: Seq<Seq<char>>)
    requires
        forall|i: int| 0 <= i < emotes.len() ==> spaced(s, #[trigger] emotes[i]),
    ensures
        spacing_all(s, emotes) == s,
    decreases emotes.len(),
{
    if emotes.len() > 0 {
        assert(spaced(s, emotes[0]));
        lemma_pass_identity(s, emotes[0], 0);
        let rest = emotes.drop_first();
        assert forall|i: int| 0 <= i < rest.len() implies spaced(s, #[trigger] rest[i]) by {
            assert(rest[i] == emotes[i + 1]);
        }
        lemma_all_identity(s, rest);
    }
}

/// Law: fixing the spacing twice gives what fixing it once gives (for emotes that are not
/// empty and hold no space).
pub proof fn law_spacing_idempotent(input: Seq<char>, emotes: Seq<Seq<char>>)
    requires
        forall|i: int| 0 <= i < emotes.len() ==> (#[trigger] emotes[i]).len() > 0 && space_free(emotes[i]),
    ensures
        spacing_all(spacing_all(input, emotes), emotes) == spacing_all(input, emotes),
{
    law_spacing_leaves_emotes_followed(input, emotes);
    lemma_all_identity(spacing_all(input, emotes), emotes);
}

/// Runs one scan for the emote `ev` (the characters of `emote`) over `text`.
fn spacing_pass_exec(text: String, emote: &str, ev: &Vec<char>) -> (r: String)
    requires
        ev@ == emote@,
        ev@.len() > 0,
    ensures
        r@ == spacing_pass(text@, emote@, 0),
{
    let m = ev.len();
    let ghost goal = spacing_pass(text@, emote@, 0);
    let mut out = text;
    let mut cs = chars_of(out.as_str());
    let mut from: usize = 0;
    loop
        invariant
            ev@ == emote@,
            m == ev@.len(),
            m > 0,
            cs@ == out@,
            from <= cs@.len(),
            goal == spacing_pass(out@, emote@, from as int),
            goal == spacing_pass(text@, emote@, 0),
        decreases cs@.len() + 1 - from,
    {
        let found = find_from(&cs, ev, from);
        proof {
            lemma_first_occurrence_bounds(cs@, ev@, from as int);
        }
        match found {
            None => {
                return out;
            },
            Some(k) => {
                let n = cs.len();
                let kend = k + m;
                if kend == n {
                    return out;
                } else if cs[kend] != ' ' {
                    proof {
                        reveal_strlit(" ");
                    }
                    let ghost next = out@.take(kend as int) + seq![' '] + out@.skip(kend as int);
                    let mut t = out.as_str().substring_char(0, kend).to_owned();
                    t.append(" ");
                    t.append(out.as_str().substring_char(kend, n));
                    proof {
                        assert(t@ =~= next);
                    }
                    cs.insert(kend, ' ');
                    proof {
                        assert(cs@ =~= next);
                    }
                    out = t;
                    from = kend + 1;
                } else {
                    from = kend + 1;
                }
            },
        }
    }
}

/// Puts a space after every occurrence of an emote that runs into the next character: the
/// emotes are taken in turn, each scanned for as `spacing_pass` states. An emote at the end of
/// the reply, or already followed by a space, is left as it is.
pub fn fix_emote_spacing(emotes: &Vec<String>, input: &str) -> (r: String)
    requires
        all_nonempty(views(emotes@)),
    ensures
        r@ == spacing_all(input@, views(emotes@)),
{
    let mut out = to_string(input);
    let n = emotes.len();
    let mut i: usize = 0;
    proof {
        assert(views(emotes@).skip(0) =~= views(emotes@));
    }
    while i < n
        invariant
            n == emotes@.len(),
            i <= n,
            all_nonempty(views(emotes@)),
            spacing_all(input@, views(emotes@)) == spacing_all(out@, views(emotes@).skip(i as int)),
        decreases n - i,
    {
        let ghost rest = views(emotes@).skip(i as int);
        proof {
            assert(rest[0] == emotes@[i as int]@);
            assert(rest.drop_first() =~= views(emotes@).skip(i + 1));
            assert(views(emotes@)[i as int].len() > 0);
        }
        let ev = chars_of(emotes[i].as_str());
        out = spacing_pass_exec(out, emotes[i].as_str(), &ev);
        i = i + 1;
    }
    proof {
        assert(views(emotes@).skip(n as int) =~= Seq::<Seq<char>>::empty());
    }
    out
}

} // verus!
