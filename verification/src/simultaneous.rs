//! Key placeholders replaced all at once: substituting them one key after
//! the other gives the same text, whatever the order of the keys.
use vstd::prelude::*;
use crate::digest::is_ascii_text;
use crate::keys::KeyView;
use crate::laws::{brace_free, plain};
use crate::json::JsonV;
use crate::placeholders::{
    ascii_placeholder, ascii_substitutions, placeholder_char, substitute_text, substituted, substituted_items, substituted_members,
};
use crate::text::replace_all;

verus! {

/// Whether a character is `{` or `}`.
pub open spec fn is_brace(c: char) -> bool {
    c == '{' || c == '}'
}

/// Whether a character is an ASCII lower-case letter.
pub open spec fn is_lower(c: char) -> bool {
    'a' <= c && c <= 'z'
}

/// Whether a text holds an ASCII lower-case letter.
pub open spec fn has_lower(s: Seq<char>) -> bool {
    exists|i: int| 0 <= i < s.len() && is_lower(#[trigger] s[i])
}

/// Whether a text holds no ASCII lower-case letter.
pub open spec fn no_lower(s: Seq<char>) -> bool {
    forall|i: int| 0 <= i < s.len() ==> !is_lower(#[trigger] s[i])
}

/// The number of characters `s` starts with that are not braces.
pub open spec fn plain_run(s: Seq<char>) -> nat
    decreases s.len(),
{
    if s.len() == 0 || is_brace(s[0]) {
        0
    } else {
        1 + plain_run(s.skip(1))
    }
}

/// The length of the segment `{x}`, `x` without braces, that `s` starts
/// with, when it starts with one.
pub open spec fn segment_len(s: Seq<char>) -> Option<nat> {
    if s.len() > 0 && s[0] == '{' && plain_run(s.skip(1)) + 1 < s.len() && s[plain_run(s.skip(1)) + 1int] == '}' {
        Some(plain_run(s.skip(1)) + 2)
    } else {
        None
    }
}

/// What replaces a segment: the replacement of the first substitution whose
/// pattern it is.
pub open spec fn replacement(seg: Seq<char>, subs: Seq<(Seq<char>, Seq<char>)>) -> Option<Seq<char>>
    decreases subs.len(),
{
    if subs.len() == 0 {
        None
    } else {
        match replacement(seg, subs.drop_last()) {
            Some(r) => Some(r),
            None => if subs.last().0 == seg {
                Some(subs.last().1)
            } else {
                None
            },
        }
    }
}

/// The text with every segment `{x}` that is a pattern of the substitutions
/// replaced, all at once, read from the left.
pub open spec fn simultaneous(s: Seq<char>, subs: Seq<(Seq<char>, Seq<char>)>) -> Seq<char>
    decreases s.len(),
{
    if s.len() == 0 {
        s
    } else {
        match segment_len(s) {
            Some(n) => {
                let seg = s.take(n as int);
                match replacement(seg, subs) {
                    Some(r) => r + simultaneous(s.skip(n as int), subs),
                    None => seg + simultaneous(s.skip(n as int), subs),
                }
            },
            None => seq![s[0]] + simultaneous(s.skip(1), subs),
        }
    }
}

proof fn lemma_plain_run(s: Seq<char>)
    ensures
        plain_run(s) <= s.len(),
        forall|i: int| 0 <= i < plain_run(s) ==> !is_brace(#[trigger] s[i]),
        plain_run(s) < s.len() ==> is_brace(s[plain_run(s) as int]),
    decreases s.len(),
{
    if s.len() > 0 && !is_brace(s[0]) {
        lemma_plain_run(s.skip(1));
        assert forall|i: int| 0 <= i < plain_run(s) implies !is_brace(#[trigger] s[i]) by {
            if i > 0 {
                assert(s[i] == s.skip(1)[i - 1]);
            }
        }
    }
}

/// Text without `{` before a pattern that starts with `{` is kept as it is.
proof fn lemma_replace_after_plain(a: Seq<char>, x: Seq<char>, p: Seq<char>, m: Seq<char>)
    requires
        brace_free(a),
        p.len() > 0,
        p[0] == '{',
    ensures
        replace_all(a + x, p, m) == a + replace_all(x, p, m),
    decreases a.len(),
{
    let t = a + x;
    if a.len() == 0 {
        assert(t =~= x);
        assert(a + replace_all(x, p, m) =~= replace_all(x, p, m));
    } else if t.len() < p.len() {
        assert(x.len() < p.len());
    } else {
        assert(t.take(p.len() as int)[0] == a[0]);
        assert(t.take(p.len() as int) != p);
        assert(t.skip(1) =~= a.skip(1) + x);
        assert(brace_free(a.skip(1))) by {
            assert forall|i: int| 0 <= i < a.skip(1).len() implies a.skip(1)[i] != '{' by {
                assert(a.skip(1)[i] == a[i + 1]);
            }
        }
        lemma_replace_after_plain(a.skip(1), x, p, m);
        assert(seq![t[0]] + (a.skip(1) + replace_all(x, p, m)) =~= a + replace_all(x, p, m));
    }
}

/// A pattern at the start of a text is replaced.
proof fn lemma_replace_at_start(p: Seq<char>, x: Seq<char>, m: Seq<char>)
    requires
        p.len() > 0,
    ensures
        replace_all(p + x, p, m) == m + replace_all(x, p, m),
{
    let t = p + x;
    assert(t.take(p.len() as int) =~= p);
    assert(t.skip(p.len() as int) =~= x);
}

/// A segment `{y}` other than the pattern `{x}` is kept as it is.
proof fn lemma_replace_other_segment(y: Seq<char>, x: Seq<char>, rest: Seq<char>, m: Seq<char>)
    requires
        plain(x),
        plain(y),
        x != y,
    ensures
        replace_all(seq!['{'] + y + seq!['}'] + rest, seq!['{'] + x + seq!['}'], m)
            == seq!['{'] + y + seq!['}'] + replace_all(rest, seq!['{'] + x + seq!['}'], m),
{
    let seg = seq!['{'] + y + seq!['}'];
    let p = seq!['{'] + x + seq!['}'];
    let t = seg + rest;
    let tail = seg.skip(1);
    assert(tail =~= y + seq!['}']);
    assert(brace_free(tail)) by {
        assert forall|i: int| 0 <= i < tail.len() implies tail[i] != '{' by {
            if i < y.len() {
                assert(tail[i] == y[i]);
            }
        }
    }
    lemma_replace_after_plain(tail, rest, p, m);
    if t.len() < p.len() {
        assert(rest.len() < p.len());
    } else {
        assert(t.take(p.len() as int) != p) by {
            if t.take(p.len() as int) == p {
                if x.len() < y.len() {
                    assert(t[x.len() + 1int] == y[x.len() as int]);
                    assert(p[x.len() + 1int] == '}');
                    assert(t.take(p.len() as int)[x.len() + 1int] == t[x.len() + 1int]);
                } else if x.len() > y.len() {
                    assert(t[y.len() + 1int] == '}');
                    assert(p[y.len() + 1int] == x[y.len() as int]);
                    assert(t.take(p.len() as int)[y.len() + 1int] == t[y.len() + 1int]);
                } else {
                    assert forall|i: int| 0 <= i < x.len() implies x[i] == y[i] by {
                        assert(t.take(p.len() as int)[i + 1] == t[i + 1]);
                        assert(p[i + 1] == x[i]);
                        assert(t[i + 1] == y[i]);
                    }
                    assert(x =~= y);
                }
            }
        }
        assert(t.skip(1) =~= tail + rest);
        assert(seq![t[0]] + (tail + replace_all(rest, p, m)) =~= seg + replace_all(rest, p, m));
    }
}

/// Whether every replacement holds no brace and an ASCII lower-case letter.
pub open spec fn replacements_ok(subs: Seq<(Seq<char>, Seq<char>)>) -> bool {
    forall|k: int| 0 <= k < subs.len() ==> plain(#[trigger] subs[k].1) && has_lower(subs[k].1)
}

/// A segment has a replacement exactly when it is the pattern of a
/// substitution, and the replacement is that substitution's.
proof fn lemma_replacement_found(seg: Seq<char>, subs: Seq<(Seq<char>, Seq<char>)>)
    ensures
        replacement(seg, subs) matches Some(r) ==> exists|k: int| 0 <= k < subs.len() && #[trigger] subs[k] == (seg, r),
        replacement(seg, subs) is None ==> forall|k: int| 0 <= k < subs.len() ==> (#[trigger] subs[k]).0 != seg,
    decreases subs.len(),
{
    if subs.len() > 0 {
        let init = subs.drop_last();
        lemma_replacement_found(seg, init);
        match replacement(seg, init) {
            Some(r) => {
                let k = choose|k: int| 0 <= k < init.len() && #[trigger] init[k] == (seg, r);
                assert(subs[k] == init[k]);
            },
            None => {
                assert forall|k: int| 0 <= k < subs.len() - 1 implies (#[trigger] subs[k]).0 != seg by {
                    assert(subs[k] == init[k]);
                }
                if subs.last().0 == seg {
                    assert(subs[subs.len() - 1] == (seg, subs.last().1));
                }
            },
        }
    }
}

/// The segment a text starts with: `{`, characters that are not braces, `}`.
proof fn lemma_segment_shape(s: Seq<char>)
    requires
        segment_len(s) is Some,
    ensures
        segment_len(s)->Some_0 <= s.len(),
        s.take(segment_len(s)->Some_0 as int) == seq!['{'] + s.subrange(1, segment_len(s)->Some_0 - 1) + seq!['}'],
        plain(s.subrange(1, segment_len(s)->Some_0 - 1)),
{
    let u = s.skip(1);
    lemma_plain_run(u);
    let n = segment_len(s)->Some_0;
    let y = s.subrange(1, n - 1);
    assert forall|i: int| 0 <= i < y.len() implies y[i] != '{' && y[i] != '}' by {
        assert(y[i] == u[i]);
        assert(!is_brace(u[i]));
    }
    assert(s.take(n as int) =~= seq!['{'] + y + seq!['}']);
}

/// After the text of a value whose first brace, if any, is `{`, a `}` that
/// only characters other than braces precede is preceded by a lower-case
/// letter: such a run can only come from a replacement.
proof fn lemma_closing_runs(u: Seq<char>, subs: Seq<(Seq<char>, Seq<char>)>, n: int)
    requires
        replacements_ok(subs),
        plain_run(u) == u.len() || u[plain_run(u) as int] == '{',
        0 <= n < simultaneous(u, subs).len(),
        simultaneous(u, subs)[n] == '}',
        plain(simultaneous(u, subs).take(n)),
    ensures
        has_lower(simultaneous(u, subs).take(n)),
    decreases u.len(),
{
    let out = simultaneous(u, subs);
    lemma_plain_run(u);
    match segment_len(u) {
        Some(k) => {
            let seg = u.take(k as int);
            let rest = simultaneous(u.skip(k as int), subs);
            lemma_segment_shape(u);
            lemma_replacement_found(seg, subs);
            match replacement(seg, subs) {
                Some(r) => {
                    let j = choose|j: int| 0 <= j < subs.len() && #[trigger] subs[j] == (seg, r);
                    assert(plain(subs[j].1) && has_lower(subs[j].1));
                    assert(out == r + rest);
                    if n < r.len() {
                        assert(out[n] == r[n]);
                    } else {
                        let i = choose|i: int| 0 <= i < r.len() && is_lower(#[trigger] r[i]);
                        assert(out.take(n)[i] == r[i]);
                    }
                },
                None => {
                    assert(out == seg + rest);
                    assert(out[0] == '{');
                    if n > 0 {
                        assert(out.take(n)[0] == '{');
                    }
                },
            }
        },
        None => {
            let rest = simultaneous(u.skip(1), subs);
            assert(out == seq![u[0]] + rest);
            if u[0] == '{' {
                if n > 0 {
                    assert(out.take(n)[0] == '{');
                }
            } else {
                assert(!is_brace(u[0]));
                let v = u.skip(1);
                assert(plain_run(u) == 1 + plain_run(v));
                if plain_run(v) < v.len() {
                    assert(v[plain_run(v) as int] == u[plain_run(u) as int]);
                }
                if n > 0 {
                    assert(rest[n - 1] == out[n]);
                    let rt = rest.take(n - 1);
                    assert(plain(rt)) by {
                        assert forall|i: int| 0 <= i < rt.len() implies #[trigger] rt[i] != '{' && rt[i] != '}' by {
                            assert(rt[i] == out.take(n)[i + 1]);
                        }
                    }
                    lemma_closing_runs(v, subs, n - 1);
                    let i = choose|i: int| 0 <= i < rest.take(n - 1).len() && is_lower(#[trigger] rest.take(n - 1)[i]);
                    assert(out.take(n)[i + 1] == rest.take(n - 1)[i]);
                }
            }
        },
    }
}

/// Replacing the pattern `{x}` in a text where the other patterns were
/// replaced all at once gives the text with all of them replaced at once,
/// when `{x}` is not among them, holds no lower-case letter, and every
/// replacement holds a lower-case letter and no brace.
proof fn lemma_replace_into_simultaneous(s: Seq<char>, subs: Seq<(Seq<char>, Seq<char>)>, x: Seq<char>, m: Seq<char>)
    requires
        plain(x),
        no_lower(x),
        plain(m),
        has_lower(m),
        replacements_ok(subs),
        replacement(seq!['{'] + x + seq!['}'], subs) is None,
    ensures
        replace_all(simultaneous(s, subs), seq!['{'] + x + seq!['}'], m)
            == simultaneous(s, subs.push((seq!['{'] + x + seq!['}'], m))),
    decreases s.len(),
{
    let p = seq!['{'] + x + seq!['}'];
    let more = subs.push((p, m));
    assert(more.drop_last() =~= subs);
    let lhs = simultaneous(s, subs);
    if s.len() == 0 {
        assert(lhs.len() < p.len());
    } else {
        match segment_len(s) {
            Some(n) => {
                lemma_segment_shape(s);
                let seg = s.take(n as int);
                let y = s.subrange(1, n - 1);
                let rest = s.skip(n as int);
                lemma_replace_into_simultaneous(rest, subs, x, m);
                let x1 = simultaneous(rest, subs);
                lemma_replacement_found(seg, subs);
                match replacement(seg, subs) {
                    Some(r) => {
                        let j = choose|j: int| 0 <= j < subs.len() && #[trigger] subs[j] == (seg, r);
                        assert(plain(subs[j].1));
                        assert(brace_free(r));
                        lemma_replace_after_plain(r, x1, p, m);
                    },
                    None => {
                        if seg == p {
                            lemma_replace_at_start(p, x1, m);
                        } else {
                            if x == y {
                                assert(seg == p);
                            }
                            lemma_replace_other_segment(y, x, x1, m);
                        }
                    },
                }
            },
            None => {
                let u = s.skip(1);
                let x1 = simultaneous(u, subs);
                lemma_replace_into_simultaneous(u, subs, x, m);
                assert(lhs == seq![s[0]] + x1);
                if s[0] == '{' {
                    lemma_plain_run(u);
                    if plain_run(u) < u.len() {
                        assert(u[plain_run(u) as int] == s[plain_run(u) + 1int]);
                    }
                    if lhs.len() < p.len() {
                        assert(x1.len() < p.len());
                    } else {
                        assert(lhs.take(p.len() as int) != p) by {
                            if lhs.take(p.len() as int) == p {
                                let k = x.len() as int;
                                assert(x1[k] == lhs[k + 1]);
                                assert(lhs.take(p.len() as int)[k + 1] == lhs[k + 1]);
                                assert(x1.take(k) =~= x) by {
                                    assert forall|i: int| 0 <= i < k implies x1.take(k)[i] == x[i] by {
                                        assert(lhs.take(p.len() as int)[i + 1] == lhs[i + 1]);
                                    }
                                }
                                lemma_closing_runs(u, subs, k);
                                let i = choose|i: int| 0 <= i < x1.take(k).len() && is_lower(#[trigger] x1.take(k)[i]);
                                assert(is_lower(x[i]));
                            }
                        }
                        assert(lhs.skip(1) =~= x1);
                    }
                } else {
                    lemma_replace_after_plain(seq![s[0]], x1, p, m);
                }
            },
        }
    }
}

/// Whether a pattern is a segment `{x}` whose `x` holds no brace and no
/// lower-case letter.
pub open spec fn pattern_ok(p: Seq<char>) -> bool {
    &&& p.len() >= 2
    &&& p[0] == '{'
    &&& p[p.len() - 1] == '}'
    &&& plain(p.subrange(1, p.len() - 1))
    &&& no_lower(p.subrange(1, p.len() - 1))
}

/// Whether substitutions can be made all at once: no two share a pattern,
/// every pattern is a segment `{x}` without lower-case letters, and every
/// replacement holds a lower-case letter and no brace.
pub open spec fn substitutions_ok(subs: Seq<(Seq<char>, Seq<char>)>) -> bool {
    &&& forall|k: int| 0 <= k < subs.len() ==> pattern_ok(#[trigger] subs[k].0)
    &&& forall|i: int, j: int| 0 <= i < j < subs.len() ==> (#[trigger] subs[i]).0 != (#[trigger] subs[j]).0
    &&& replacements_ok(subs)
}

/// With no substitution, nothing is replaced.
proof fn lemma_simultaneous_none(s: Seq<char>)
    ensures
        simultaneous(s, Seq::empty()) == s,
    decreases s.len(),
{
    if s.len() > 0 {
        match segment_len(s) {
            Some(n) => {
                lemma_segment_shape(s);
                lemma_simultaneous_none(s.skip(n as int));
                assert(s.take(n as int) + s.skip(n as int) =~= s);
            },
            None => {
                lemma_simultaneous_none(s.skip(1));
                assert(seq![s[0]] + s.skip(1) =~= s);
            },
        }
    }
}

/// Substituting one pattern after the other gives the text with all of them
/// replaced at once.
proof fn lemma_sequential_is_simultaneous(s: Seq<char>, subs: Seq<(Seq<char>, Seq<char>)>)
    requires
        substitutions_ok(subs),
    ensures
        substitute_text(s, subs) == simultaneous(s, subs),
    decreases subs.len(),
{
    if subs.len() == 0 {
        lemma_simultaneous_none(s);
        assert(subs =~= Seq::<(Seq<char>, Seq<char>)>::empty());
    } else {
        let init = subs.drop_last();
        let (p, m) = subs.last();
        assert(substitutions_ok(init)) by {
            assert forall|k: int| 0 <= k < init.len() implies pattern_ok(#[trigger] init[k].0) by {
                assert(init[k] == subs[k]);
            }
            assert forall|i: int, j: int| 0 <= i < j < init.len() implies (#[trigger] init[i]).0 != (#[trigger] init[j]).0 by {
                assert(init[i] == subs[i] && init[j] == subs[j]);
            }
            assert forall|k: int| 0 <= k < init.len() implies plain(#[trigger] init[k].1) && has_lower(init[k].1) by {
                assert(init[k] == subs[k]);
            }
        }
        lemma_sequential_is_simultaneous(s, init);
        let last = subs.len() - 1;
        assert(subs[last] == (p, m));
        assert(pattern_ok(p));
        assert(plain(m) && has_lower(m));
        let x = p.subrange(1, p.len() - 1);
        assert(p =~= seq!['{'] + x + seq!['}']);
        lemma_replacement_found(p, init);
        if replacement(p, init) is Some {
            let r = replacement(p, init)->Some_0;
            let k = choose|k: int| 0 <= k < init.len() && #[trigger] init[k] == (p, r);
            assert(subs[k] == init[k]);
            assert(subs[k].0 != subs[last].0);
        }
        lemma_replace_into_simultaneous(s, init, x, m);
        assert(init.push((p, m)) =~= subs);
    }
}

/// Under distinct patterns, a segment's replacement is the one of the
/// substitution whose pattern it is.
proof fn lemma_replacement_member(seg: Seq<char>, r: Seq<char>, subs: Seq<(Seq<char>, Seq<char>)>)
    requires
        substitutions_ok(subs),
    ensures
        replacement(seg, subs) == Some(r) <==> subs.contains((seg, r)),
        replacement(seg, subs) is None <==> forall|k: int| 0 <= k < subs.len() ==> (#[trigger] subs[k]).0 != seg,
{
    lemma_replacement_found(seg, subs);
    if subs.contains((seg, r)) {
        let k = choose|k: int| 0 <= k < subs.len() && subs[k] == (seg, r);
        match replacement(seg, subs) {
            Some(r2) => {
                let k2 = choose|k2: int| 0 <= k2 < subs.len() && #[trigger] subs[k2] == (seg, r2);
                if k2 < k {
                    assert(subs[k2].0 != subs[k].0);
                } else if k < k2 {
                    assert(subs[k].0 != subs[k2].0);
                }
            },
            None => {
                assert(subs[k].0 != seg);
            },
        }
    }
    if replacement(seg, subs) is Some {
        let r2 = replacement(seg, subs)->Some_0;
        let k2 = choose|k2: int| 0 <= k2 < subs.len() && #[trigger] subs[k2] == (seg, r2);
        if r2 == r {
            assert(subs[k2] == (seg, r));
        }
        assert(subs[k2].0 == seg);
    }
}

/// Substitutions with the same pairs replace all at once alike, in whatever
/// order they come.
proof fn lemma_simultaneous_same_pairs(s: Seq<char>, subs: Seq<(Seq<char>, Seq<char>)>, other: Seq<(Seq<char>, Seq<char>)>)
    requires
        substitutions_ok(subs),
        substitutions_ok(other),
        subs.to_set() == other.to_set(),
    ensures
        simultaneous(s, subs) == simultaneous(s, other),
    decreases s.len(),
{
    if s.len() > 0 {
        match segment_len(s) {
            Some(n) => {
                lemma_segment_shape(s);
                let seg = s.take(n as int);
                lemma_simultaneous_same_pairs(s.skip(n as int), subs, other);
                match replacement(seg, subs) {
                    Some(r) => {
                        lemma_replacement_member(seg, r, subs);
                        lemma_replacement_member(seg, r, other);
                        assert(subs.to_set().contains((seg, r)));
                    },
                    None => {
                        match replacement(seg, other) {
                            Some(r) => {
                                lemma_replacement_member(seg, r, subs);
                                lemma_replacement_member(seg, r, other);
                                assert(other.to_set().contains((seg, r)));
                                assert(subs.to_set().contains((seg, r)));
                            },
                            None => {},
                        }
                    },
                }
            },
            None => {
                lemma_simultaneous_same_pairs(s.skip(1), subs, other);
            },
        }
    }
}

/// A character as it stands in an ASCII placeholder is neither a brace nor a
/// lower-case letter, when it was not a brace.
proof fn lemma_placeholder_char(c: char)
    requires
        !is_brace(c),
    ensures
        !is_brace(placeholder_char(c)),
        !is_lower(placeholder_char(c)),
{
}

/// Whether the keys' placeholders can be replaced all at once: ASCII
/// identifiers without braces whose placeholders differ, and public keys
/// without braces that hold a lower-case letter (as a `z`-prefixed multibase
/// does).
pub open spec fn keys_substitutable(keys: Seq<KeyView>) -> bool {
    &&& forall|i: int| 0 <= i < keys.len() ==> is_ascii_text(#[trigger] keys[i].id) && plain(keys[i].id)
        && plain(keys[i].pub_multibase) && has_lower(keys[i].pub_multibase)
    &&& forall|i: int, j: int| 0 <= i < j < keys.len() ==> ascii_placeholder(#[trigger] keys[i].id) != ascii_placeholder(#[trigger] keys[j].id)
}

proof fn lemma_keys_substitutions_ok(keys: Seq<KeyView>)
    requires
        keys_substitutable(keys),
    ensures
        substitutions_ok(ascii_substitutions(keys)),
{
    let subs = ascii_substitutions(keys);
    assert forall|k: int| 0 <= k < subs.len() implies pattern_ok(#[trigger] subs[k].0) by {
        let id = keys[k].id;
        let p = ascii_placeholder(id);
        let x = p.subrange(1, p.len() - 1);
        assert(x =~= Seq::new(id.len(), |i: int| placeholder_char(id[i])));
        assert forall|i: int| 0 <= i < x.len() implies #[trigger] x[i] != '{' && x[i] != '}' && !is_lower(x[i]) by {
            assert(!is_brace(id[i]));
            lemma_placeholder_char(id[i]);
        }
    }
    assert forall|i: int, j: int| 0 <= i < j < subs.len() implies (#[trigger] subs[i]).0 != (#[trigger] subs[j]).0 by {
        assert(ascii_placeholder(keys[i].id) != ascii_placeholder(keys[j].id));
    }
}

/// Substituting key placeholders one key after the other, as the registry
/// orders them, replaces them all at once: a text's result is its
/// placeholders replaced, read from the left, and another registry holding
/// the same keys in another order gives the same text.
pub proof fn lemma_substitution_order_free(s: Seq<char>, keys: Seq<KeyView>, other: Seq<KeyView>)
    requires
        keys_substitutable(keys),
        keys_substitutable(other),
        ascii_substitutions(keys).to_set() == ascii_substitutions(other).to_set(),
    ensures
        substitute_text(s, ascii_substitutions(keys)) == simultaneous(s, ascii_substitutions(keys)),
        substitute_text(s, ascii_substitutions(keys)) == substitute_text(s, ascii_substitutions(other)),
{
    lemma_keys_substitutions_ok(keys);
    lemma_keys_substitutions_ok(other);
    lemma_sequential_is_simultaneous(s, ascii_substitutions(keys));
    lemma_sequential_is_simultaneous(s, ascii_substitutions(other));
    lemma_simultaneous_same_pairs(s, ascii_substitutions(keys), ascii_substitutions(other));
}

/// Substituting key placeholders in a value does not depend on the order of
/// the keys: two registries holding the same keys give the same value.
pub proof fn lemma_substituted_order_free(v: JsonV, keys: Seq<KeyView>, other: Seq<KeyView>)
    requires
        keys_substitutable(keys),
        keys_substitutable(other),
        ascii_substitutions(keys).to_set() == ascii_substitutions(other).to_set(),
    ensures
        substituted(v, ascii_substitutions(keys)) == substituted(v, ascii_substitutions(other)),
    decreases v,
{
    let a = ascii_substitutions(keys);
    let b = ascii_substitutions(other);
    match v {
        JsonV::Str(s) => {
            lemma_substitution_order_free(s, keys, other);
        },
        JsonV::Array(items) => {
            assert forall|i: int| 0 <= i < items.len() implies substituted(#[trigger] items[i], a) == substituted(items[i], b) by {
                assert(decreases_to!(v => items[i]));
                lemma_substituted_order_free(items[i], keys, other);
            }
            assert(substituted_items(items, a) =~= substituted_items(items, b));
        },
        JsonV::Object(ms) => {
            assert forall|i: int| 0 <= i < ms.len() implies substituted(#[trigger] ms[i].1, a) == substituted(ms[i].1, b) by {
                assert(decreases_to!(v => ms[i].1)) by {
                    assert(decreases_to!(v => ms));
                    assert(decreases_to!(ms => ms[i]));
                }
                lemma_substituted_order_free(ms[i].1, keys, other);
            }
            assert(substituted_members(ms, a) =~= substituted_members(ms, b));
        },
        _ => {},
    }
}

} // verus!
