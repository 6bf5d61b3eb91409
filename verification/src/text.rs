//! Character-sequence operations with exact specifications, used by the
//! parsers and generators of this crate.

use vstd::prelude::*;
use vstd::utf8::{decode_utf8, valid_utf8};

verus! {

broadcast use vstd::string::group_string_axioms;

/// The Unicode `White_Space` property (what `char::is_whitespace` tests).
pub open spec fn is_ws(c: char) -> bool {
    ||| c == '\t'
    ||| c == '\n'
    ||| c == '\u{0B}'
    ||| c == '\u{0C}'
    ||| c == '\r'
    ||| c == ' '
    ||| c == '\u{85}'
    ||| c == '\u{A0}'
    ||| c == '\u{1680}'
    ||| ('\u{2000}' <= c && c <= '\u{200A}')
    ||| c == '\u{2028}'
    ||| c == '\u{2029}'
    ||| c == '\u{202F}'
    ||| c == '\u{205F}'
    ||| c == '\u{3000}'
}

pub fn is_whitespace(c: char) -> (b: bool)
    ensures
        b == is_ws(c),
{
    c == '\t' || c == '\n' || c == '\u{0B}' || c == '\u{0C}' || c == '\r' || c == ' '
        || c == '\u{85}' || c == '\u{A0}' || c == '\u{1680}' || ('\u{2000}' <= c && c
        <= '\u{200A}') || c == '\u{2028}' || c == '\u{2029}' || c == '\u{202F}' || c
        == '\u{205F}' || c == '\u{3000}'
}

/// The characters of a string slice, in order.
pub fn chars_of(s: &str) -> (v: Vec<char>)
    ensures
        v@ == s@,
{
    let mut v: Vec<char> = Vec::new();
    for c in it: s.chars()
        invariant
            v@ == it.seq().take(it.index() as int),
            it.seq() == s@,
    {
        v.push(c);
    }
    v
}


/// Unicode's numeric general categories (`Nd`, `Nl`, `No`), which
/// `char::is_numeric` tests.
pub uninterp spec fn numeric(c: char) -> bool;

/// `char::is_numeric`; its answer is the Unicode property named by
/// [`numeric`], which is not spelled out here.
#[verifier::external_body]
pub(crate) fn is_numeric_char(c: char) -> (b: bool)
    ensures
        b == numeric(c),
{
    c.is_numeric()
}

/// A class of characters that the trimming and splitting operations remove
/// or split at: whitespace, one given character, or anything that cannot be
/// part of a version number (neither numeric nor `.`).
#[derive(Clone, Copy)]
pub enum Strip {
    Ws,
    Ch(char),
    NonVersion,
}

pub open spec fn strips(k: Strip, c: char) -> bool {
    match k {
        Strip::Ws => is_ws(c),
        Strip::Ch(x) => c == x,
        Strip::NonVersion => !numeric(c) && c != '.',
    }
}

pub fn strips_char(k: Strip, c: char) -> (b: bool)
    ensures
        b == strips(k, c),
{
    match k {
        Strip::Ws => is_whitespace(c),
        Strip::Ch(x) => c == x,
        Strip::NonVersion => !is_numeric_char(c) && c != '.',
    }
}

/// `s` without its leading characters of class `k`.
pub open spec fn trim_start_by(s: Seq<char>, k: Strip) -> Seq<char>
    decreases s.len(),
{
    if s.len() > 0 && strips(k, s[0]) {
        trim_start_by(s.drop_first(), k)
    } else {
        s
    }
}

/// `s` without its trailing characters of class `k`.
pub open spec fn trim_end_by(s: Seq<char>, k: Strip) -> Seq<char>
    decreases s.len(),
{
    if s.len() > 0 && strips(k, s.last()) {
        trim_end_by(s.drop_last(), k)
    } else {
        s
    }
}

/// What `str::trim` gives.
pub open spec fn trim(s: Seq<char>) -> Seq<char> {
    trim_end_by(trim_start_by(s, Strip::Ws), Strip::Ws)
}

/// What `str::trim_matches(c)` gives for a single character `c`.
pub open spec fn trim_matches(s: Seq<char>, c: char) -> Seq<char> {
    trim_end_by(trim_start_by(s, Strip::Ch(c)), Strip::Ch(c))
}

/// The characters `lo..hi` of `v`.
pub fn subvec(v: &Vec<char>, lo: usize, hi: usize) -> (r: Vec<char>)
    requires
        lo <= hi <= v.len(),
    ensures
        r@ == v@.subrange(lo as int, hi as int),
{
    let mut r: Vec<char> = Vec::new();
    let mut i = lo;
    while i < hi
        invariant
            lo <= i <= hi <= v.len(),
            r@ == v@.subrange(lo as int, i as int),
        decreases hi - i,
    {
        r.push(v[i]);
        i += 1;
    }
    r
}

/// A copy of a character vector.
pub fn copy_of(v: &Vec<char>) -> (r: Vec<char>)
    ensures
        r@ == v@,
{
    let r = subvec(v, 0, v.len());
    proof {
        assert(r@ =~= v@);
    }
    r
}

/// The entries `k..` of a list of character vectors, copied.
pub fn skip_parts(v: &Vec<Vec<char>>, k: usize) -> (r: Vec<Vec<char>>)
    requires
        k <= v.len(),
    ensures
        deep(r@) == deep(v@).skip(k as int),
{
    let mut r: Vec<Vec<char>> = Vec::new();
    let mut i = k;
    while i < v.len()
        invariant
            k <= i <= v.len(),
            deep(r@) == deep(v@).subrange(k as int, i as int),
        decreases v.len() - i,
    {
        let ghost before = deep(r@);
        let c = copy_of(&v[i]);
        r.push(c);
        proof {
            assert(deep(r@) =~= before.push(v@[i as int]@));
            assert(deep(v@).subrange(k as int, i + 1) =~= deep(v@).subrange(k as int, i as int).push(
                v@[i as int]@,
            ));
        }
        i += 1;
    }
    proof {
        assert(deep(v@).subrange(k as int, v.len() as int) =~= deep(v@).skip(k as int));
    }
    r
}

/// The second piece of `s` split at `c`, if there is one
/// (`s.split(c).nth(1)`).
pub open spec fn second_field(s: Seq<char>, c: char) -> Option<Seq<char>> {
    let parts = split_by(s, Strip::Ch(c));
    if parts.len() >= 2 {
        Some(parts[1])
    } else {
        None
    }
}

pub fn second_field_of(s: &Vec<char>, c: char) -> (r: Option<Vec<char>>)
    ensures
        match r {
            Some(v) => second_field(s@, c) == Some(v@),
            None => second_field(s@, c) is None,
        },
{
    let parts = split_of(s, Strip::Ch(c));
    if parts.len() >= 2 {
        proof {
            assert(deep(parts@)[1] == parts@[1]@);
        }
        Some(copy_of(&parts[1]))
    } else {
        None
    }
}

pub fn trim_start_of(v: &Vec<char>, k: Strip) -> (r: Vec<char>)
    ensures
        r@ == trim_start_by(v@, k),
{
    let n = v.len();
    let mut i: usize = 0;
    assert(v@.subrange(0, n as int) =~= v@);
    while i < n && strips_char(k, v[i])
        invariant
            i <= n == v.len(),
            trim_start_by(v@, k) == trim_start_by(v@.subrange(i as int, n as int), k),
        decreases n - i,
    {
        assert(v@.subrange(i as int, n as int).drop_first() =~= v@.subrange(i + 1, n as int));
        i += 1;
    }
    subvec(v, i, n)
}

pub fn trim_end_of(v: &Vec<char>, k: Strip) -> (r: Vec<char>)
    ensures
        r@ == trim_end_by(v@, k),
{
    let mut j: usize = v.len();
    assert(v@.subrange(0, j as int) =~= v@);
    while j > 0 && strips_char(k, v[j - 1])
        invariant
            j <= v.len(),
            trim_end_by(v@, k) == trim_end_by(v@.subrange(0, j as int), k),
        decreases j,
    {
        assert(v@.subrange(0, j as int).drop_last() =~= v@.subrange(0, j - 1));
        j -= 1;
    }
    subvec(v, 0, j)
}

/// `str::trim` on a character vector.
pub fn trim_of(v: &Vec<char>) -> (r: Vec<char>)
    ensures
        r@ == trim(v@),
{
    let a = trim_start_of(v, Strip::Ws);
    trim_end_of(&a, Strip::Ws)
}

/// `str::trim_matches(c)` on a character vector.
pub fn trim_matches_of(v: &Vec<char>, c: char) -> (r: Vec<char>)
    ensures
        r@ == trim_matches(v@, c),
{
    let a = trim_start_of(v, Strip::Ch(c));
    trim_end_of(&a, Strip::Ch(c))
}

/// `p` occurs in `s` starting at index `i`.
pub open spec fn occurs_at(s: Seq<char>, p: Seq<char>, i: int) -> bool {
    0 <= i && i + p.len() <= s.len() && s.subrange(i, i + p.len()) == p
}

/// What `str::contains` gives for a string pattern.
pub open spec fn contains(s: Seq<char>, p: Seq<char>) -> bool {
    exists|i: int| occurs_at(s, p, i)
}

/// What `str::starts_with` gives for a string pattern.
pub open spec fn starts_with(s: Seq<char>, p: Seq<char>) -> bool {
    occurs_at(s, p, 0)
}

/// What `str::ends_with` gives for a string pattern.
pub open spec fn ends_with(s: Seq<char>, p: Seq<char>) -> bool {
    p.len() <= s.len() && occurs_at(s, p, s.len() - p.len())
}

pub fn occurs_at_of(s: &Vec<char>, p: &Vec<char>, i: usize) -> (b: bool)
    ensures
        b == occurs_at(s@, p@, i as int),
{
    if i > s.len() || p.len() > s.len() - i {
        return false;
    }
    let mut j: usize = 0;
    while j < p.len()
        invariant
            i + p.len() <= s.len(),
            j <= p.len(),
            forall|t: int| 0 <= t < j ==> s@[i + t] == p@[t],
        decreases p.len() - j,
    {
        if s[i + j] != p[j] {
            assert(s@.subrange(i as int, i + p.len())[j as int] != p@[j as int]);
            return false;
        }
        j += 1;
    }
    assert(s@.subrange(i as int, i + p.len()) =~= p@);
    true
}

pub fn contains_of(s: &Vec<char>, p: &Vec<char>) -> (b: bool)
    ensures
        b == contains(s@, p@),
{
    if p.len() == 0 {
        assert(s@.subrange(0, 0) =~= p@);
        assert(occurs_at(s@, p@, 0));
        return true;
    }
    if p.len() > s.len() {
        return false;
    }
    let mut i: usize = 0;
    while i <= s.len() - p.len()
        invariant
            0 < p.len() <= s.len(),
            i <= s.len() - p.len() + 1,
            forall|t: int| 0 <= t < i ==> !occurs_at(s@, p@, t),
        decreases s.len() - i,
    {
        if occurs_at_of(s, p, i) {
            return true;
        }
        i += 1;
    }
    false
}

pub fn starts_with_of(s: &Vec<char>, p: &Vec<char>) -> (b: bool)
    ensures
        b == starts_with(s@, p@),
{
    occurs_at_of(s, p, 0)
}

pub fn ends_with_of(s: &Vec<char>, p: &Vec<char>) -> (b: bool)
    ensures
        b == ends_with(s@, p@),
{
    if p.len() > s.len() {
        false
    } else {
        occurs_at_of(s, p, s.len() - p.len())
    }
}

/// What `str::replace(p, r)` gives for a non-empty pattern `p`: every
/// occurrence of `p`, scanning left to right without overlap, becomes `r`.
pub open spec fn replace(s: Seq<char>, p: Seq<char>, r: Seq<char>) -> Seq<char>
    decreases s.len(),
{
    if p.len() == 0 || s.len() < p.len() {
        s
    } else if s.subrange(0, p.len() as int) == p {
        r + replace(s.skip(p.len() as int), p, r)
    } else {
        seq![s[0]] + replace(s.drop_first(), p, r)
    }
}

pub fn replace_of(s: &Vec<char>, p: &Vec<char>, r: &Vec<char>) -> (out: Vec<char>)
    requires
        p.len() > 0,
    ensures
        out@ == replace(s@, p@, r@),
{
    let n = s.len();
    let m = p.len();
    let mut out: Vec<char> = Vec::new();
    let mut i: usize = 0;
    assert(s@.skip(0) =~= s@);
    assert(out@ + s@ =~= s@);
    assert(out@ + replace(s@.skip(0), p@, r@) =~= replace(s@, p@, r@));
    while i < n
        invariant
            n == s.len(),
            m == p.len() > 0,
            i <= n,
            out@ + replace(s@.skip(i as int), p@, r@) == replace(s@, p@, r@),
        decreases n - i,
    {
        let ghost rest = s@.skip(i as int);
        if n - i < m {
            assert(replace(rest, p@, r@) == rest);
            let tail = subvec(s, i, n);
            assert(tail@ =~= rest);
            let mut tail = tail;
            out.append(&mut tail);
            i = n;
            assert(s@.skip(n as int) =~= Seq::<char>::empty());
            assert(replace(s@.skip(n as int), p@, r@) == Seq::<char>::empty());
            assert(out@ + Seq::<char>::empty() =~= out@);
        } else if occurs_at_of(s, p, i) {
            assert(rest.subrange(0, m as int) =~= s@.subrange(i as int, i + m));
            assert(rest.skip(m as int) =~= s@.skip(i + m));
            let mut rc = r.clone();
            out.append(&mut rc);
            i = i + m;
        } else {
            assert(rest.subrange(0, m as int) =~= s@.subrange(i as int, i + m));
            assert(rest.drop_first() =~= s@.skip(i + 1));
            out.push(s[i]);
            i = i + 1;
        }
    }
    assert(s@.skip(n as int) =~= Seq::<char>::empty());
    out
}


/// The first piece of `r` extended at its front by `cur`.
pub open spec fn extend_first(cur: Seq<char>, r: Seq<Seq<char>>) -> Seq<Seq<char>> {
    seq![cur + r[0]] + r.drop_first()
}

/// What `str::split` gives with a single-character pattern (or with
/// `char::is_whitespace` for `Strip::Ws`): the pieces between the
/// separators, empty pieces included; there is always at least one piece.
pub open spec fn split_by(s: Seq<char>, k: Strip) -> Seq<Seq<char>>
    decreases s.len(),
{
    if s.len() == 0 {
        seq![Seq::<char>::empty()]
    } else if strips(k, s[0]) {
        seq![Seq::<char>::empty()] + split_by(s.drop_first(), k)
    } else {
        extend_first(seq![s[0]], split_by(s.drop_first(), k))
    }
}

pub proof fn lemma_split_by_nonempty(s: Seq<char>, k: Strip)
    ensures
        split_by(s, k).len() >= 1,
    decreases s.len(),
{
    if s.len() > 0 {
        lemma_split_by_nonempty(s.drop_first(), k);
    }
}

pub open spec fn deep(v: Seq<Vec<char>>) -> Seq<Seq<char>> {
    v.map_values(|x: Vec<char>| x@)
}

pub fn split_of(s: &Vec<char>, k: Strip) -> (parts: Vec<Vec<char>>)
    ensures
        deep(parts@) == split_by(s@, k),
        parts.len() >= 1,
{
    let n = s.len();
    let mut parts: Vec<Vec<char>> = Vec::new();
    let mut cur: Vec<char> = Vec::new();
    let mut i: usize = 0;
    proof {
        lemma_split_by_nonempty(s@, k);
        assert(s@.skip(0) =~= s@);
        assert(extend_first(cur@, split_by(s@, k)) =~= split_by(s@, k));
        assert(deep(parts@) + extend_first(cur@, split_by(s@.skip(0), k)) =~= split_by(s@, k));
    }
    while i < n
        invariant
            n == s.len(),
            i <= n,
            deep(parts@) + extend_first(cur@, split_by(s@.skip(i as int), k)) == split_by(s@, k),
        decreases n - i,
    {
        let ghost rest = s@.skip(i as int);
        proof {
            assert(rest.drop_first() =~= s@.skip(i + 1));
            lemma_split_by_nonempty(s@.skip(i + 1), k);
        }
        let c = s[i];
        if strips_char(k, c) {
            let ghost r = split_by(s@.skip(i + 1), k);
            let ghost old_parts = deep(parts@);
            let ghost old_cur = cur@;
            let done = cur;
            parts.push(done);
            cur = Vec::new();
            proof {
                assert(deep(parts@) =~= old_parts.push(old_cur));
                assert(split_by(rest, k) == seq![Seq::<char>::empty()] + r);
                assert(extend_first(old_cur, split_by(rest, k)) =~= seq![old_cur] + r);
                assert(extend_first(cur@, r) =~= r);
                assert(deep(parts@) + extend_first(cur@, r) =~= old_parts + extend_first(old_cur, split_by(rest, k)));
            }
        } else {
            let ghost r = split_by(s@.skip(i + 1), k);
            let ghost old_cur = cur@;
            cur.push(c);
            proof {
                assert(split_by(rest, k) == extend_first(seq![c], r));
                let e = extend_first(seq![c], r);
                assert(e[0] == seq![c] + r[0]);
                assert(e.drop_first() =~= r.drop_first());
                assert(old_cur + e[0] =~= cur@ + r[0]);
                assert(extend_first(old_cur, split_by(rest, k)) =~= extend_first(cur@, r));
            }
        }
        i += 1;
    }
    proof {
        assert(s@.skip(n as int) =~= Seq::<char>::empty());
    }
    let ghost old_parts = deep(parts@);
    let ghost last = cur@;
    parts.push(cur);
    proof {
        assert(deep(parts@) =~= old_parts.push(last));
        assert(extend_first(last, seq![Seq::<char>::empty()]) =~= seq![last]);
        assert(deep(parts@) =~= old_parts + extend_first(last, split_by(s@.skip(n as int), k)));
    }
    parts
}


/// A line without its one trailing carriage return, if any.
pub open spec fn strip_cr(l: Seq<char>) -> Seq<char> {
    if l.len() > 0 && l.last() == '\r' {
        l.drop_last()
    } else {
        l
    }
}

/// What `str::lines` gives: the pieces between line feeds, each piece that
/// was ended by a line feed losing one trailing carriage return; a final
/// empty piece is not a line.
pub open spec fn lines(s: Seq<char>) -> Seq<Seq<char>> {
    let parts = split_by(s, Strip::Ch('\n'));
    let body = parts.drop_last().map_values(|l: Seq<char>| strip_cr(l));
    if parts.last().len() == 0 {
        body
    } else {
        body.push(parts.last())
    }
}

pub fn strip_cr_of(l: &Vec<char>) -> (r: Vec<char>)
    ensures
        r@ == strip_cr(l@),
{
    if l.len() > 0 && l[l.len() - 1] == '\r' {
        subvec(l, 0, l.len() - 1)
    } else {
        subvec(l, 0, l.len())
    }
}

pub fn lines_of(s: &Vec<char>) -> (out: Vec<Vec<char>>)
    ensures
        deep(out@) == lines(s@),
{
    let parts = split_of(s, Strip::Ch('\n'));
    let ghost p = split_by(s@, Strip::Ch('\n'));
    let n = parts.len();
    let mut out: Vec<Vec<char>> = Vec::new();
    let mut i: usize = 0;
    while i + 1 < n
        invariant
            n == parts.len() >= 1,
            deep(parts@) == p,
            i + 1 <= n,
            deep(out@) == p.take(i as int).map_values(|l: Seq<char>| strip_cr(l)),
        decreases n - i,
    {
        let l = strip_cr_of(&parts[i]);
        let ghost before = deep(out@);
        out.push(l);
        proof {
            assert(deep(parts@)[i as int] == parts@[i as int]@);
            assert(deep(out@) =~= before.push(strip_cr(p[i as int])));
            assert(p.take(i + 1).map_values(|l: Seq<char>| strip_cr(l)) =~= p.take(
                i as int,
            ).map_values(|l: Seq<char>| strip_cr(l)).push(strip_cr(p[i as int])));
        }
        i += 1;
    }
    proof {
        assert(p.take(i as int) =~= p.drop_last());
        assert(deep(parts@)[n - 1] == parts@[n - 1]@);
    }
    if parts[n - 1].len() > 0 {
        let last = subvec(&parts[n - 1], 0, parts[n - 1].len());
        let ghost before = deep(out@);
        proof {
            assert(last@ =~= parts@[n - 1]@);
        }
        out.push(last);
        proof {
            assert(deep(out@) =~= before.push(p.last()));
        }
    }
    out
}

/// The non-empty entries of `p`, in order.
pub open spec fn nonempty(p: Seq<Seq<char>>) -> Seq<Seq<char>>
    decreases p.len(),
{
    if p.len() == 0 {
        Seq::empty()
    } else if p[0].len() == 0 {
        nonempty(p.drop_first())
    } else {
        seq![p[0]] + nonempty(p.drop_first())
    }
}

/// What `str::split_whitespace` gives.
pub open spec fn split_whitespace(s: Seq<char>) -> Seq<Seq<char>> {
    nonempty(split_by(s, Strip::Ws))
}

pub fn split_whitespace_of(s: &Vec<char>) -> (out: Vec<Vec<char>>)
    ensures
        deep(out@) == split_whitespace(s@),
{
    let parts = split_of(s, Strip::Ws);
    let ghost p = deep(parts@);
    let mut out: Vec<Vec<char>> = Vec::new();
    let mut i: usize = 0;
    proof {
        assert(p.skip(0) =~= p);
        assert(deep(out@) + nonempty(p.skip(0)) =~= nonempty(p));
    }
    while i < parts.len()
        invariant
            p == deep(parts@),
            i <= parts.len(),
            deep(out@) + nonempty(p.skip(i as int)) == nonempty(p),
        decreases parts.len() - i,
    {
        proof {
            assert(p.skip(i as int).drop_first() =~= p.skip(i + 1));
            assert(p.skip(i as int)[0] == parts@[i as int]@);
        }
        if parts[i].len() > 0 {
            let piece = subvec(&parts[i], 0, parts[i].len());
            let ghost before = deep(out@);
            proof {
                assert(piece@ =~= parts@[i as int]@);
            }
            out.push(piece);
            proof {
                assert(deep(out@) =~= before.push(p[i as int]));
                assert(seq![p[i as int]] + nonempty(p.skip(i + 1)) == nonempty(p.skip(i as int)));
                assert(deep(out@) + nonempty(p.skip(i + 1)) =~= before + nonempty(p.skip(i as int)));
            }
        }
        i += 1;
    }
    proof {
        assert(p.skip(i as int) =~= Seq::<Seq<char>>::empty());
        assert(deep(out@) + Seq::<Seq<char>>::empty() =~= deep(out@));
    }
    out
}

/// What `[..].join(sep)` gives.
pub open spec fn join(p: Seq<Seq<char>>, sep: Seq<char>) -> Seq<char>
    decreases p.len(),
{
    if p.len() == 0 {
        Seq::empty()
    } else if p.len() == 1 {
        p[0]
    } else {
        join(p.drop_last(), sep) + sep + p.last()
    }
}

pub fn join_of(p: &Vec<Vec<char>>, sep: &Vec<char>) -> (out: Vec<char>)
    ensures
        out@ == join(deep(p@), sep@),
{
    let ghost dp = deep(p@);
    let mut out: Vec<char> = Vec::new();
    let mut i: usize = 0;
    proof {
        assert(dp.take(0) =~= Seq::<Seq<char>>::empty());
    }
    while i < p.len()
        invariant
            dp == deep(p@),
            i <= p.len(),
            out@ == join(dp.take(i as int), sep@),
        decreases p.len() - i,
    {
        let ghost before = out@;
        if i > 0 {
            let mut s2 = sep.clone();
            out.append(&mut s2);
        }
        let mut piece = subvec(&p[i], 0, p[i].len());
        out.append(&mut piece);
        proof {
            assert(dp.take(i + 1).drop_last() =~= dp.take(i as int));
            assert(dp.take(i + 1).last() == p@[i as int]@);
            if i == 0 {
                assert(out@ =~= dp.take(1)[0]);
            } else {
                assert(out@ =~= before + sep@ + p@[i as int]@);
            }
        }
        i += 1;
    }
    proof {
        assert(dp.take(p.len() as int) =~= dp);
    }
    out
}

pub open spec fn digit_char(d: nat) -> char {
    (48 + d) as char
}

/// The decimal digits of `n`, as `Display` writes an unsigned integer.
pub open spec fn dec(n: nat) -> Seq<char>
    decreases n,
{
    if n < 10 {
        seq![digit_char(n)]
    } else {
        dec(n / 10).push(digit_char(n % 10))
    }
}

pub fn digit_of(d: u64) -> (c: char)
    requires
        d < 10,
    ensures
        c == digit_char(d as nat),
{
    let b: u8 = (d as u8) + 48u8;
    b as char
}

pub fn dec_of(n: u64) -> (v: Vec<char>)
    ensures
        v@ == dec(n as nat),
    decreases n,
{
    if n < 10 {
        let mut v: Vec<char> = Vec::new();
        v.push(digit_of(n));
        proof {
            assert(v@ =~= seq![digit_char(n as nat)]);
        }
        v
    } else {
        let mut v = dec_of(n / 10);
        v.push(digit_of(n % 10));
        v
    }
}

pub open spec fn is_digit(c: char) -> bool {
    '0' <= c && c <= '9'
}

pub open spec fn all_digits(s: Seq<char>) -> bool {
    forall|i: int| 0 <= i < s.len() ==> is_digit(#[trigger] s[i])
}

/// The number that a sequence of decimal digits denotes.
pub open spec fn digits_value(s: Seq<char>) -> nat
    decreases s.len(),
{
    if s.len() == 0 {
        0
    } else {
        digits_value(s.drop_last()) * 10 + ((s.last() as int - 48) as nat)
    }
}

/// What `str::parse::<u32>()` gives, as an `Option`: an optional leading
/// `+` (not alone), then one or more ASCII digits whose value fits in `u32`.
pub open spec fn parse_u32(s: Seq<char>) -> Option<u32> {
    let d = if s.len() > 1 && s[0] == '+' {
        s.drop_first()
    } else {
        s
    };
    if d.len() > 0 && all_digits(d) && digits_value(d) <= u32::MAX {
        Some(digits_value(d) as u32)
    } else {
        None
    }
}

pub open spec fn min_cap(v: nat) -> nat {
    if v > 0x1_0000_0000 {
        0x1_0000_0000
    } else {
        v
    }
}

pub fn parse_u32_of(s: &Vec<char>) -> (r: Option<u32>)
    ensures
        r == parse_u32(s@),
{
    let start: usize = if s.len() > 1 && s[0] == '+' {
        1
    } else {
        0
    };
    let ghost d = if s@.len() > 1 && s@[0] == '+' {
        s@.drop_first()
    } else {
        s@
    };
    proof {
        assert(d =~= s@.skip(start as int));
    }
    if start >= s.len() {
        return None;
    }
    let mut acc: u64 = 0;
    let mut i: usize = start;
    proof {
        assert(d.take(0) =~= Seq::<char>::empty());
    }
    while i < s.len()
        invariant
            start <= i <= s.len(),
            d =~= s@.skip(start as int),
            d == (if s@.len() > 1 && s@[0] == '+' {
                s@.drop_first()
            } else {
                s@
            }),
            forall|t: int| start <= t < i ==> is_digit(#[trigger] s@[t]),
            acc as nat == min_cap(digits_value(d.take(i - start))),
        decreases s.len() - i,
    {
        let c = s[i];
        if !('0' <= c && c <= '9') {
            assert(d[i - start] == c);
            assert(!is_digit(d[i - start]));
            assert(!all_digits(d));
            return None;
        }
        let dv: u64 = (c as u32 - 48u32) as u64;
        let ghost pre = d.take(i - start);
        let ghost nxt = d.take(i + 1 - start);
        proof {
            assert(nxt.drop_last() =~= pre);
            assert(nxt.last() == c);
            assert(digits_value(nxt) == digits_value(pre) * 10 + dv);
        }
        if acc * 10 + dv > 0x1_0000_0000 {
            acc = 0x1_0000_0000;
        } else {
            acc = acc * 10 + dv;
        }
        i += 1;
    }
    proof {
        assert(d.take(s.len() - start) =~= d);
        assert forall|t: int| 0 <= t < d.len() implies is_digit(#[trigger] d[t]) by {
            assert(d[t] == s@[t + start]);
        }
    }
    if acc > 0xFFFF_FFFF {
        None
    } else {
        Some(acc as u32)
    }
}

/// The Unicode lower-case mapping that `str::to_lowercase` applies.
pub uninterp spec fn lowercase(s: Seq<char>) -> Seq<char>;

/// An ASCII character in lower case (`char::to_ascii_lowercase`).
pub open spec fn ascii_lower(c: char) -> char {
    if 'A' <= c && c <= 'Z' {
        ((c as u32) + 32) as char
    } else {
        c
    }
}

/// Calls `str::to_lowercase`. Unicode lower-casing takes pages to state, so
/// its result is named (`lowercase`), as a function of the characters; on
/// ASCII text, where the Unicode mapping lowers `A`-`Z` to `a`-`z` and keeps
/// every other character, it is stated.
#[verifier::external_body]
pub(crate) fn to_lowercase_of(s: &str) -> (r: String)
    ensures
        r@ == lowercase(s@),
        (forall|i: int| 0 <= i < s@.len() ==> (#[trigger] s@[i] as u32) < 128) ==> r@ == s@.map_values(
            |c: char| ascii_lower(c),
        ),
{
    s.to_lowercase()
}

/// What `String::from_utf8_lossy` decodes from some bytes.
pub uninterp spec fn lossy_utf8(b: Seq<u8>) -> Seq<char>;

/// Calls `String::from_utf8_lossy`. Its result is named (`lossy_utf8`); where
/// the bytes are valid UTF-8 its documentation gives the decoded text.
#[verifier::external_body]
pub(crate) fn utf8_lossy_of(bytes: &[u8]) -> (s: String)
    ensures
        s@ == lossy_utf8(bytes@),
        valid_utf8(bytes@) ==> s@ == decode_utf8(bytes@),
{
    String::from_utf8_lossy(bytes).into_owned()
}

/// `s` with every leading copy of `p` removed (`str::trim_start_matches`
/// with a non-empty string pattern).
pub open spec fn trim_start_str(s: Seq<char>, p: Seq<char>) -> Seq<char>
    decreases s.len(),
{
    if p.len() > 0 && starts_with(s, p) {
        trim_start_str(s.skip(p.len() as int), p)
    } else {
        s
    }
}

pub fn trim_start_str_of(s: &Vec<char>, p: &Vec<char>) -> (r: Vec<char>)
    ensures
        r@ == trim_start_str(s@, p@),
{
    let mut i: usize = 0;
    let n = s.len();
    assert(s@.skip(0) =~= s@);
    if p.len() == 0 {
        return copy_of(s);
    }
    while i <= n && p.len() <= n - i && occurs_at_of(s, p, i)
        invariant
            n == s.len(),
            p.len() > 0,
            i <= n,
            trim_start_str(s@, p@) == trim_start_str(s@.skip(i as int), p@),
        decreases n - i,
    {
        proof {
            assert(s@.skip(i as int).subrange(0, p.len() as int) =~= s@.subrange(
                i as int,
                i + p.len(),
            ));
            assert(s@.skip(i as int).skip(p.len() as int) =~= s@.skip(i + p.len()));
        }
        i = i + p.len();
    }
    proof {
        if i + p.len() <= n {
            assert(s@.skip(i as int).subrange(0, p.len() as int) =~= s@.subrange(
                i as int,
                i + p.len(),
            ));
        }
    }
    let r = subvec(s, i, n);
    proof {
        assert(r@ =~= s@.skip(i as int));
    }
    r
}

/// Appends the characters of a literal.
pub fn push_str(out: &mut Vec<char>, s: &str)
    ensures
        final(out)@ == old(out)@ + s@,
{
    let mut v = chars_of(s);
    out.append(&mut v);
}

/// Appends characters.
pub fn push_chars(out: &mut Vec<char>, v: &Vec<char>)
    ensures
        final(out)@ == old(out)@ + v@,
{
    let mut c = copy_of(v);
    out.append(&mut c);
}

/// Appends the decimal digits of a number.
pub fn push_dec(out: &mut Vec<char>, n: u64)
    ensures
        final(out)@ == old(out)@ + dec(n as nat),
{
    let mut c = dec_of(n);
    out.append(&mut c);
}

/// Two character vectors are equal.
pub fn eq_chars(a: &Vec<char>, b: &Vec<char>) -> (r: bool)
    ensures
        r == (a@ == b@),
{
    if a.len() != b.len() {
        return false;
    }
    let mut i: usize = 0;
    while i < a.len()
        invariant
            a.len() == b.len(),
            i <= a.len(),
            a@.take(i as int) == b@.take(i as int),
        decreases a.len() - i,
    {
        if a[i] != b[i] {
            assert(a@[i as int] != b@[i as int]);
            return false;
        }
        proof {
            assert(a@.take(i + 1) =~= a@.take(i as int).push(a@[i as int]));
            assert(b@.take(i + 1) =~= b@.take(i as int).push(b@[i as int]));
        }
        i += 1;
    }
    proof {
        assert(a@.take(a.len() as int) =~= a@);
        assert(b@.take(b.len() as int) =~= b@);
    }
    true
}

/// Collects characters into a `String` (`FromIterator<&char>` for `String`,
/// which appends the characters in order).
#[verifier::external_body]
pub(crate) fn string_of(v: &Vec<char>) -> (s: String)
    ensures
        s@ == v@,
{
    v.iter().collect()
}

} // verus!
