//! Parsing of a node's class attribute.
//!
//! The host reports the attribute as one string; the set of class names is
//! obtained natively: trim surrounding whitespace, split on every whitespace
//! character (consecutive separators yield empty pieces, as the host's
//! attribute grammar does not promise single spaces), and keep each distinct
//! piece once.

use crate::marshal::str_eq;
use vstd::prelude::*;
use vstd::string::StrSliceExecFns;

verus! {

/// Whether a character counts as whitespace.
pub uninterp spec fn is_unicode_whitespace(c: char) -> bool;

/// Relies on char::is_whitespace: the result depends on the character alone.
#[verifier::external_body]
fn char_is_whitespace(c: char) -> (r: bool)
    ensures
        r == is_unicode_whitespace(c),
{
    c.is_whitespace()
}

/// `s` without leading and trailing whitespace.
pub open spec fn trim_ws(s: Seq<char>) -> Seq<char>
    decreases s.len(),
{
    if s.len() == 0 {
        s
    } else if is_unicode_whitespace(s[0]) {
        trim_ws(s.drop_first())
    } else if is_unicode_whitespace(s.last()) {
        trim_ws(s.drop_last())
    } else {
        s
    }
}

/// The pieces of `s` between its whitespace characters: every whitespace
/// character separates two pieces, so consecutive separators yield empty
/// pieces, and the empty text has the single empty piece.
pub open spec fn split_ws(s: Seq<char>) -> Seq<Seq<char>>
    decreases s.len(),
{
    if s.len() == 0 {
        seq![Seq::empty()]
    } else if is_unicode_whitespace(s[0]) {
        seq![Seq::<char>::empty()] + split_ws(s.drop_first())
    } else {
        let rest = split_ws(s.drop_first());
        seq![seq![s[0]] + rest[0]] + rest.drop_first()
    }
}

/// The class set of an attribute string: the distinct split pieces of the
/// trimmed text.
pub open spec fn spec_class_set(s: Seq<char>) -> Set<Seq<char>> {
    split_ws(trim_ws(s)).to_set()
}

/// Splitting always yields at least one piece.
proof fn lemma_split_nonempty(s: Seq<char>)
    ensures
        split_ws(s).len() > 0,
    decreases s.len(),
{
    if s.len() > 0 {
        lemma_split_nonempty(s.drop_first());
    }
}

/// How one more character extends a split: a whitespace character opens a
/// new empty piece; any other character grows the last piece.
proof fn lemma_split_snoc(u: Seq<char>, c: char)
    ensures
        is_unicode_whitespace(c) ==> split_ws(u.push(c)) =~~= split_ws(u).push(Seq::empty()),
        !is_unicode_whitespace(c) ==> split_ws(u.push(c)) =~~= split_ws(u).update(
            split_ws(u).len() - 1,
            split_ws(u).last().push(c),
        ),
    decreases u.len(),
{
    lemma_split_nonempty(u);
    if u.len() == 0 {
        let s1 = u.push(c);
        assert(s1[0] == c);
        assert(s1.drop_first() =~= Seq::<char>::empty());
        assert(u =~= Seq::<char>::empty());
        assert(split_ws(Seq::<char>::empty()) =~= seq![Seq::<char>::empty()]);
        assert(split_ws(s1.drop_first()) =~= seq![Seq::<char>::empty()]);
        if is_unicode_whitespace(c) {
            assert(split_ws(s1) =~= seq![Seq::<char>::empty()] + split_ws(s1.drop_first()));
            assert(split_ws(u.push(c)) =~~= split_ws(u).push(Seq::empty()));
        } else {
            assert(split_ws(s1) =~= seq![seq![c] + split_ws(s1.drop_first())[0]] + split_ws(
                s1.drop_first(),
            ).drop_first());
            assert(split_ws(s1.drop_first()).drop_first() =~= Seq::<Seq<char>>::empty());
            assert(split_ws(u.push(c)) =~~= split_ws(u).update(
                split_ws(u).len() - 1,
                split_ws(u).last().push(c),
            ));
        }
    } else {
        assert(u.push(c)[0] == u[0]);
        assert(u.push(c).drop_first() =~= u.drop_first().push(c));
        lemma_split_snoc(u.drop_first(), c);
        lemma_split_nonempty(u.drop_first());
        let rest = split_ws(u.drop_first());
        let rest2 = split_ws(u.drop_first().push(c));
        if is_unicode_whitespace(c) {
            assert(rest2 =~~= rest.push(Seq::empty()));
            if is_unicode_whitespace(u[0]) {
                assert(split_ws(u.push(c)) =~~= split_ws(u).push(Seq::empty()));
            } else {
                assert(rest2[0] =~~= rest[0]);
                assert(split_ws(u.push(c)) =~~= split_ws(u).push(Seq::empty()));
            }
        } else {
            assert(rest2 =~~= rest.update(rest.len() - 1, rest.last().push(c)));
            if is_unicode_whitespace(u[0]) {
                assert(split_ws(u.push(c)) =~~= split_ws(u).update(
                    split_ws(u).len() - 1,
                    split_ws(u).last().push(c),
                ));
            } else {
                if rest.len() == 1 {
                    assert(rest2[0] =~~= rest[0].push(c));
                    assert(split_ws(u.push(c)) =~~= split_ws(u).update(
                        split_ws(u).len() - 1,
                        split_ws(u).last().push(c),
                    ));
                } else {
                    assert(rest2[0] =~~= rest[0]);
                    assert(split_ws(u).last() =~~= rest.last());
                    assert(split_ws(u.push(c)) =~~= split_ws(u).update(
                        split_ws(u).len() - 1,
                        split_ws(u).last().push(c),
                    ));
                }
            }
        }
    }
}

/// Trimming keeps exactly the span between the first and last characters
/// that are not whitespace.
proof fn lemma_trim_span(s: Seq<char>, a: int, b: int)
    requires
        0 <= a <= b <= s.len(),
        forall|i: int| 0 <= i < a ==> is_unicode_whitespace(s[i]),
        forall|i: int| b <= i < s.len() ==> is_unicode_whitespace(s[i]),
        a < b ==> !is_unicode_whitespace(s[a]) && !is_unicode_whitespace(s[b - 1]),
    ensures
        trim_ws(s) =~= s.subrange(a, b),
    decreases s.len(),
{
    if s.len() == 0 {
    } else if a > 0 {
        assert(is_unicode_whitespace(s[0]));
        assert(s.drop_first() =~= s.subrange(1, s.len() as int));
        lemma_trim_span(s.drop_first(), a - 1, b - 1);
        assert(s.drop_first().subrange(a - 1, b - 1) =~= s.subrange(a, b));
    } else if a == b {
        assert(is_unicode_whitespace(s[0]));
        lemma_trim_span(s.drop_first(), 0, 0);
    } else if b < s.len() {
        assert(!is_unicode_whitespace(s[0]));
        assert(is_unicode_whitespace(s.last()));
        lemma_trim_span(s.drop_last(), a, b);
        assert(s.drop_last().subrange(a, b) =~= s.subrange(a, b));
    } else {
        assert(!is_unicode_whitespace(s[0]));
        assert(!is_unicode_whitespace(s.last()));
        assert(trim_ws(s) == s);
        assert(s.subrange(0, s.len() as int) =~= s);
    }
}

/// Whether some element of `v` is the text `s`.
fn vec_contains_str(v: &Vec<String>, s: &str) -> (r: bool)
    ensures
        r == v.deep_view().contains(s@),
{
    let n = v.len();
    let mut i: usize = 0;
    while i < n
        invariant
            n == v@.len(),
            0 <= i <= n,
            forall|j: int| 0 <= j < i ==> v.deep_view()[j] != s@,
        decreases n - i,
    {
        if str_eq(v[i].as_str(), s) {
            assert(v.deep_view()[i as int] == s@);
            return true;
        }
        i += 1;
    }
    assert(forall|j: int| 0 <= j < v.deep_view().len() ==> v.deep_view()[j] != s@);
    false
}

/// Keeps the first occurrence of each distinct piece.
fn dedup_pieces(pieces: &Vec<String>) -> (out: Vec<String>)
    ensures
        out.deep_view().to_set() == pieces.deep_view().to_set(),
        out.deep_view().no_duplicates(),
{
    broadcast use vstd::seq_lib::group_seq_properties;

    let m = pieces.len();
    let mut out: Vec<String> = Vec::new();
    let mut j: usize = 0;
    while j < m
        invariant
            m == pieces@.len(),
            0 <= j <= m,
            out.deep_view().to_set() == pieces.deep_view().take(j as int).to_set(),
            out.deep_view().no_duplicates(),
        decreases m - j,
    {
        let ghost prev = pieces.deep_view().take(j as int);
        let ghost p = pieces.deep_view()[j as int];
        proof {
            assert(pieces.deep_view().take(j + 1) =~= prev + seq![p]);
            Seq::lemma_to_set_insert_commutes(prev, p);
        }
        if !vec_contains_str(&out, pieces[j].as_str()) {
            let ghost old_out = out.deep_view();
            out.push(pieces[j].clone());
            proof {
                assert(out.deep_view() =~= old_out + seq![p]);
                Seq::lemma_to_set_insert_commutes(old_out, p);
                assert(out.deep_view().to_set() =~= pieces.deep_view().take(j + 1).to_set());
                assert forall|q: int, w: int|
                    0 <= q < w < out.deep_view().len() implies out.deep_view()[q]
                    != out.deep_view()[w] by {
                    if w == out.deep_view().len() - 1 {
                        assert(out.deep_view()[q] == old_out[q]);
                        assert(!old_out.contains(p));
                    }
                }
            }
        } else {
            proof {
                assert(prev.to_set().contains(p));
                assert(prev.to_set().insert(p) =~= prev.to_set());
                assert(out.deep_view().to_set() =~= pieces.deep_view().take(j + 1).to_set());
            }
        }
        j += 1;
    }
    proof {
        assert(pieces.deep_view().take(m as int) =~= pieces.deep_view());
    }
    out
}

/// The set of class names in an attribute string: the trimmed text is split
/// on every whitespace character and each distinct piece is kept once.
pub fn parse_class_list(class: &str) -> (r: Vec<String>)
    ensures
        r.deep_view().to_set() == spec_class_set(class@),
        r.deep_view().no_duplicates(),
{
    let n = class.unicode_len();
    // The trimmed span [a, b).
    let mut a: usize = 0;
    while a < n && char_is_whitespace(class.get_char(a))
        invariant
            n == class@.len(),
            0 <= a <= n,
            forall|i: int| 0 <= i < a ==> is_unicode_whitespace(class@[i]),
        decreases n - a,
    {
        a += 1;
    }
    let mut b: usize = n;
    while b > a && char_is_whitespace(class.get_char(b - 1))
        invariant
            n == class@.len(),
            a <= b <= n,
            forall|i: int| b <= i < n ==> is_unicode_whitespace(class@[i]),
            a < b ==> !is_unicode_whitespace(class@[a as int]),
        decreases b,
    {
        b -= 1;
    }
    proof {
        lemma_trim_span(class@, a as int, b as int);
    }
    let ghost t = class@.subrange(a as int, b as int);

    // Split the trimmed span into pieces.
    let mut pieces: Vec<String> = Vec::new();
    let mut start: usize = a;
    let mut i: usize = a;
    while i < b
        invariant
            n == class@.len(),
            a <= start <= i <= b <= n,
            t == class@.subrange(a as int, b as int),
            pieces.deep_view().push(class@.subrange(start as int, i as int)) =~~= split_ws(
                t.take(i - a),
            ),
        decreases b - i,
    {
        let c = class.get_char(i);
        proof {
            assert(t.take(i + 1 - a) =~= t.take(i - a).push(class@[i as int]));
            lemma_split_snoc(t.take(i - a), class@[i as int]);
            lemma_split_nonempty(t.take(i - a));
        }
        if char_is_whitespace(c) {
            let piece = class.substring_char(start, i).to_owned();
            let ghost old_pieces = pieces.deep_view();
            let ghost old_start = start as int;
            pieces.push(piece);
            start = i + 1;
            proof {
                assert(pieces.deep_view() =~= old_pieces.push(class@.subrange(old_start, i as int)));
                assert(class@.subrange(start as int, i + 1) =~= Seq::<char>::empty());
                assert(pieces.deep_view().push(class@.subrange(start as int, i + 1)) =~~= split_ws(
                    t.take(i + 1 - a),
                ));
            }
        } else {
            proof {
                assert(class@.subrange(start as int, i + 1) =~= class@.subrange(
                    start as int,
                    i as int,
                ).push(class@[i as int]));
                assert(pieces.deep_view().push(class@.subrange(start as int, i + 1)) =~~= split_ws(
                    t.take(i + 1 - a),
                ));
            }
        }
        i += 1;
    }
    let last_piece = class.substring_char(start, b).to_owned();
    let ghost old_pieces = pieces.deep_view();
    pieces.push(last_piece);
    proof {
        assert(t.take(b - a) =~= t);
        assert(pieces.deep_view() =~= old_pieces.push(class@.subrange(start as int, b as int)));
        assert(pieces.deep_view() =~~= split_ws(t));
        assert(pieces.deep_view() == split_ws(trim_ws(class@)));
    }
    dedup_pieces(&pieces)
}

} // verus!
