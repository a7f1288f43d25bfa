//! Frame discovery and ordering for the batch pipeline and for playback:
//! which files count as frames, the lexicographic order that fixes their
//! sequence, the zero-padded output names, and the guarantee that parallel
//! completion order cannot change what ends up written.

use vstd::prelude::*;
use vstd::string::StrSliceExecFns;
use vstd::string::StringExecFns;
use crate::chars::{dec_seq, digit_char, push_char, push_decimal};
use crate::errors::AsciiError;

verus! {

/// Lexicographic order on character sequences, by code point; on the
/// fixed-width zero-padded names this project uses it coincides with the
/// numeric frame order.
pub open spec fn lex_le(a: Seq<char>, b: Seq<char>) -> bool
    decreases a.len(),
{
    if a.len() == 0 {
        true
    } else if b.len() == 0 {
        false
    } else if (a[0] as int) < (b[0] as int) {
        true
    } else if (a[0] as int) > (b[0] as int) {
        false
    } else {
        lex_le(a.skip(1), b.skip(1))
    }
}

/// Any two sequences are ordered one way or the other.
pub proof fn lemma_lex_total(a: Seq<char>, b: Seq<char>)
    ensures
        lex_le(a, b) || lex_le(b, a),
    decreases a.len(),
{
    if a.len() != 0 && b.len() != 0 && (a[0] as int) == (b[0] as int) {
        lemma_lex_total(a.skip(1), b.skip(1));
    }
}

/// Every sequence is ordered with itself.
pub proof fn lemma_lex_refl(a: Seq<char>)
    ensures
        lex_le(a, a),
    decreases a.len(),
{
    if a.len() != 0 {
        lemma_lex_refl(a.skip(1));
    }
}

/// The order carries over a middle element.
pub proof fn lemma_lex_trans(a: Seq<char>, b: Seq<char>, c: Seq<char>)
    requires
        lex_le(a, b),
        lex_le(b, c),
    ensures
        lex_le(a, c),
    decreases a.len(),
{
    if a.len() != 0 && b.len() != 0 && c.len() != 0
        && (a[0] as int) == (b[0] as int) && (b[0] as int) == (c[0] as int) {
        lemma_lex_trans(a.skip(1), b.skip(1), c.skip(1));
    }
}

/// In a sorted list every earlier name is ordered before every later one,
/// not only its neighbour.
pub proof fn lemma_lex_sorted_pairwise(s: Seq<Seq<char>>, i: int, j: int)
    requires
        lex_sorted(s),
        0 <= i <= j < s.len(),
    ensures
        lex_le(s[i], s[j]),
    decreases j - i,
{
    if i == j {
        lemma_lex_refl(s[i]);
    } else if i + 1 == j {
    } else {
        lemma_lex_sorted_pairwise(s, i, j - 1);
        lemma_lex_trans(s[i], s[j - 1], s[j]);
    }
}

/// Compare two names lexicographically.
fn str_le(a: &str, b: &str) -> (r: bool)
    ensures
        r == lex_le(a@, b@),
{
    let alen = a.unicode_len();
    let blen = b.unicode_len();
    proof {
        assert(a@.skip(0) =~= a@);
        assert(b@.skip(0) =~= b@);
    }
    let mut i: usize = 0;
    while i < alen && i < blen
        invariant
            i <= alen,
            i <= blen,
            alen == a@.len(),
            blen == b@.len(),
            lex_le(a@, b@) == lex_le(a@.skip(i as int), b@.skip(i as int)),
        decreases alen - i,
    {
        let ca = a.get_char(i);
        let cb = b.get_char(i);
        if (ca as u32) < (cb as u32) {
            return true;
        }
        if (ca as u32) > (cb as u32) {
            return false;
        }
        proof {
            assert(a@.skip(i as int).skip(1) =~= a@.skip(i as int + 1));
            assert(b@.skip(i as int).skip(1) =~= b@.skip(i as int + 1));
        }
        i = i + 1;
    }
    alen <= blen
}

/// The views of a list of names.
pub open spec fn views(s: Seq<String>) -> Seq<Seq<char>> {
    s.map_values(|x: String| x@)
}

/// Every neighbouring pair is in order.
pub open spec fn lex_sorted(s: Seq<Seq<char>>) -> bool {
    forall|i: int| 0 <= i < s.len() - 1 ==> lex_le(#[trigger] s[i], s[i + 1])
}

/// Sort names lexicographically (insertion sort).
fn sort_frames(v: Vec<String>) -> (r: Vec<String>)
    ensures
        r@.len() == v@.len(),
        lex_sorted(views(r@)),
        views(r@).to_multiset() == views(v@).to_multiset(),
{

    let mut out: Vec<String> = Vec::new();
    let mut i: usize = 0;
    proof {
        assert(views(v@.take(0)) =~= Seq::<Seq<char>>::empty());
        assert(views(out@) =~= Seq::<Seq<char>>::empty());
    }
    while i < v.len()
        invariant
            i <= v@.len(),
            out@.len() == i,
            lex_sorted(views(out@)),
            views(out@).to_multiset() == views(v@.take(i as int)).to_multiset(),
        decreases v@.len() - i,
    {
        let s = v[i].clone();
        let mut j: usize = 0;
        while j < out.len() && str_le(out[j].as_str(), s.as_str())
            invariant
                j <= out@.len(),
                i < v@.len(),
                s@ == v@[i as int]@,
                forall|k: int| 0 <= k < j ==> lex_le(#[trigger] views(out@)[k], s@),
            decreases out@.len() - j,
        {
            j = j + 1;
        }
        proof {
            if j < out@.len() {
                lemma_lex_total(views(out@)[j as int], s@);
            }
        }
        let ghost old_out = out@;
        out.insert(j, s);
        proof {
            assert(views(out@) =~= views(old_out).insert(j as int, v@[i as int]@));
            let nv = views(out@);
            let ov = views(old_out);
            assert forall|k: int| 0 <= k < nv.len() - 1 implies lex_le(#[trigger] nv[k], nv[k + 1]) by {
                if k + 1 < j {
                    assert(nv[k] == ov[k] && nv[k + 1] == ov[k + 1]);
                } else if k + 1 == j {
                    assert(nv[k] == ov[k] && nv[k + 1] == s@);
                } else if k == j {
                    assert(nv[k] == s@ && nv[k + 1] == ov[k]);
                } else {
                    assert(nv[k] == ov[k - 1] && nv[k + 1] == ov[k]);
                }
            }
            vstd::seq_lib::to_multiset_insert(views(old_out), j as int, v@[i as int]@);
            assert(views(v@.take(i as int + 1)) =~= views(v@.take(i as int)).push(v@[i as int]@));
            vstd::seq_lib::to_multiset_build(views(v@.take(i as int)), v@[i as int]@);
        }
        i = i + 1;
    }
    proof {
        assert(v@.take(v@.len() as int) =~= v@);
    }
    out
}

/// A name of the expected kind: it ends in the extension, with at least one
/// character before it.
pub open spec fn has_ext(n: Seq<char>, ext: Seq<char>) -> bool {
    n.len() > ext.len() && n.skip(n.len() - ext.len()) == ext
}

/// Does a name end in the given extension?
fn has_suffix(s: &str, suffix: &str) -> (r: bool)
    ensures
        r == has_ext(s@, suffix@),
{
    let n = s.unicode_len();
    let m = suffix.unicode_len();
    if n <= m {
        return false;
    }
    let mut i: usize = 0;
    while i < m
        invariant
            i <= m,
            m == suffix@.len(),
            n == s@.len(),
            n > m,
            forall|k: int| 0 <= k < i ==> s@[n - m + k] == #[trigger] suffix@[k],
        decreases m - i,
    {
        if (s.get_char(n - m + i) as u32) != (suffix.get_char(i) as u32) {
            proof {
                assert(s@.skip((n - m) as int)[i as int] != suffix@[i as int]);
            }
            return false;
        }
        i = i + 1;
    }
    proof {
        assert(s@.skip((n - m) as int) =~= suffix@);
    }
    true
}

/// Keep the names with the expected extension, in their incoming order.
fn filter_frames(names: &Vec<String>, ext: &str) -> (r: Vec<String>)
    ensures
        views(r@) == views(names@).filter(|s: Seq<char>| has_ext(s, ext@)),
{
    reveal(Seq::filter);
    let ghost pred = |s: Seq<char>| has_ext(s, ext@);
    let mut kept: Vec<String> = Vec::new();
    let mut i: usize = 0;
    proof {
        assert(views(names@.take(0)) =~= Seq::<Seq<char>>::empty());
        assert(views(kept@) =~= Seq::<Seq<char>>::empty());
        assert(Seq::<Seq<char>>::empty().filter(pred) =~= Seq::<Seq<char>>::empty());
    }
    while i < names.len()
        invariant
            i <= names@.len(),
            views(kept@) == views(names@.take(i as int)).filter(pred),
            pred == (|s: Seq<char>| has_ext(s, ext@)),
        decreases names@.len() - i,
    {
        let ghost prev = views(names@.take(i as int));
        let keep = has_suffix(names[i].as_str(), ext);
        if keep {
            kept.push(names[i].clone());
        }
        proof {
            reveal(Seq::filter);
            let one = seq![names@[i as int]@];
            assert(views(names@.take(i as int + 1)) =~= prev + one);
            Seq::filter_distributes_over_add(prev, one, pred);
            assert(one.drop_last() =~= Seq::<Seq<char>>::empty());
            assert(Seq::<Seq<char>>::empty().filter(pred) =~= Seq::<Seq<char>>::empty());
            if pred(names@[i as int]@) {
                assert(one.filter(pred) =~= one);
                assert(views(kept@) =~= prev.filter(pred) + one);
            } else {
                assert(one.filter(pred) =~= Seq::<Seq<char>>::empty());
                assert(views(kept@) =~= prev.filter(pred));
            }
        }
        i = i + 1;
    }
    proof {
        assert(names@.take(names@.len() as int) =~= names@);
    }
    kept
}

/// Order the frames of one run: keep the names with the expected extension,
/// sort them lexicographically, and fail with `EmptyInputSet` exactly when
/// none matched.
fn plan_frames(names: &Vec<String>, ext: &str) -> (r: Result<Vec<String>, AsciiError>)
    ensures
        match r {
            Ok(v) => v@.len() >= 1 && lex_sorted(views(v@))
                && views(v@).to_multiset()
                    == views(names@).filter(|s: Seq<char>| has_ext(s, ext@)).to_multiset(),
            Err(e) => e == AsciiError::EmptyInputSet
                && views(names@).filter(|s: Seq<char>| has_ext(s, ext@)).len() == 0,
        },
{
    let kept = filter_frames(names, ext);
    if kept.len() == 0 {
        Err(AsciiError::EmptyInputSet)
    } else {
        Ok(sort_frames(kept))
    }
}

/// The source frames of a batch run: the `.png` names among the directory's
/// entries, in lexicographic order; `EmptyInputSet` when there are none.
pub fn plan_batch(names: &Vec<String>) -> (r: Result<Vec<String>, AsciiError>)
    ensures
        match r {
            Ok(v) => v@.len() >= 1 && lex_sorted(views(v@))
                && views(v@).to_multiset()
                    == views(names@).filter(|s: Seq<char>| has_ext(s, ".png"@)).to_multiset(),
            Err(e) => e == AsciiError::EmptyInputSet
                && views(names@).filter(|s: Seq<char>| has_ext(s, ".png"@)).len() == 0,
        },
{
    plan_frames(names, ".png")
}

/// The pre-rendered frames of a playback run: the `.txt` names, in
/// lexicographic order; `EmptyInputSet` when there are none.
pub fn plan_playback(names: &Vec<String>) -> (r: Result<Vec<String>, AsciiError>)
    ensures
        match r {
            Ok(v) => v@.len() >= 1 && lex_sorted(views(v@))
                && views(v@).to_multiset()
                    == views(names@).filter(|s: Seq<char>| has_ext(s, ".txt"@)).to_multiset(),
            Err(e) => e == AsciiError::EmptyInputSet
                && views(names@).filter(|s: Seq<char>| has_ext(s, ".txt"@)).len() == 0,
        },
{
    plan_frames(names, ".txt")
}

/// `k` zero characters.
pub open spec fn zeros(k: int) -> Seq<char>
    decreases k,
{
    if k <= 0 {
        Seq::empty()
    } else {
        zeros(k - 1).push('0')
    }
}

/// A decimal rendering padded with zeros on the left to at least six digits.
pub open spec fn zero_padded6(s: Seq<char>) -> Seq<char> {
    zeros(6 - s.len()) + s
}

/// The output file name of the frame with (1-based) index `n`:
/// the index zero-padded to six digits, then `.txt`.
pub open spec fn frame_name(n: int) -> Seq<char> {
    zero_padded6(dec_seq(n)) + ".txt"@
}

/// How long a decimal rendering is, by size bracket.
proof fn lemma_dec_seq_len(n: int)
    requires
        n >= 0,
    ensures
        dec_seq(n).len() >= 1,
        n < 10 ==> dec_seq(n).len() == 1,
        n >= 10 ==> dec_seq(n).len() >= 2,
        n < 100 ==> dec_seq(n).len() <= 2,
        n >= 100 ==> dec_seq(n).len() >= 3,
        n < 1000 ==> dec_seq(n).len() <= 3,
        n >= 1000 ==> dec_seq(n).len() >= 4,
        n < 10000 ==> dec_seq(n).len() <= 4,
        n >= 10000 ==> dec_seq(n).len() >= 5,
        n < 100000 ==> dec_seq(n).len() <= 5,
        n >= 100000 ==> dec_seq(n).len() >= 6,
    decreases n,
{
    if n >= 10 {
        lemma_dec_seq_len(n / 10);
    }
}

/// Render a frame's output file name.
pub fn frame_file_name(index: u64) -> (r: String)
    ensures
        r@ == frame_name(index as int),
{
    proof {
        lemma_dec_seq_len(index as int);
    }
    let pad: usize = if index < 10 { 5 }
        else if index < 100 { 4 }
        else if index < 1000 { 3 }
        else if index < 10000 { 2 }
        else if index < 100000 { 1 }
        else { 0 };
    let mut out = String::new();
    let mut k: usize = 0;
    while k < pad
        invariant
            k <= pad,
            out@ == zeros(k as int),
        decreases pad - k,
    {
        push_char(&mut out, '0');
        k = k + 1;
    }
    proof {
        if index >= 100000 {
            assert(zeros(6 - dec_seq(index as int).len()) =~= zeros(pad as int));
        }
    }
    push_decimal(&mut out, index);
    out.append(".txt");
    proof {
        assert(out@ =~= frame_name(index as int));
    }
    out
}

/// The numeric value of a digit glyph.
pub open spec fn digit_val(c: char) -> int {
    c as int - 48
}

/// The number a digit sequence denotes, most significant digit first.
pub open spec fn digits_val(s: Seq<char>) -> int
    decreases s.len(),
{
    if s.len() == 0 {
        0
    } else {
        digits_val(s.drop_last()) * 10 + digit_val(s.last())
    }
}

/// A decimal rendering denotes the number it was rendered from.
proof fn lemma_dec_seq_val(n: int)
    requires
        n >= 0,
    ensures
        digits_val(dec_seq(n)) == n,
    decreases n,
{
    assert(digit_val(digit_char(0)) == 0);
    assert(digit_val(digit_char(1)) == 1);
    assert(digit_val(digit_char(2)) == 2);
    assert(digit_val(digit_char(3)) == 3);
    assert(digit_val(digit_char(4)) == 4);
    assert(digit_val(digit_char(5)) == 5);
    assert(digit_val(digit_char(6)) == 6);
    assert(digit_val(digit_char(7)) == 7);
    assert(digit_val(digit_char(8)) == 8);
    assert(digit_val(digit_char(9)) == 9);
    if n < 10 {
        let s = seq![digit_char(n)];
        assert(dec_seq(n) == s);
        assert(s.drop_last() =~= Seq::<char>::empty());
        assert(digits_val(Seq::<char>::empty()) == 0);
        assert(s.last() == digit_char(n));
        assert(digit_val(digit_char(n)) == n);
        assert(digits_val(s) == digits_val(s.drop_last()) * 10 + digit_val(s.last()));
    } else {
        lemma_dec_seq_val(n / 10);
        let s = dec_seq(n / 10) + seq![digit_char(n % 10)];
        assert(dec_seq(n) == s);
        assert(s.drop_last() =~= dec_seq(n / 10));
        assert(s.last() == digit_char(n % 10));
        assert(0 <= n % 10 < 10);
        assert(digit_val(digit_char(n % 10)) == n % 10);
        assert(digits_val(s) == digits_val(s.drop_last()) * 10 + digit_val(s.last()));
        vstd::arithmetic::div_mod::lemma_fundamental_div_mod(n, 10);
    }
}

/// Zeros denote zero.
proof fn lemma_zeros_val(k: int)
    ensures
        digits_val(zeros(k)) == 0,
    decreases k,
{
    if k > 0 {
        lemma_zeros_val(k - 1);
        assert(zeros(k).drop_last() =~= zeros(k - 1));
    }
}

/// Leading zeros do not change what a digit sequence denotes.
proof fn lemma_zeros_prefix_val(k: int, s: Seq<char>)
    ensures
        digits_val(zeros(k) + s) == digits_val(s),
    decreases s.len(),
{
    if s.len() == 0 {
        assert(zeros(k) + s =~= zeros(k));
        lemma_zeros_val(k);
    } else {
        assert((zeros(k) + s).drop_last() =~= zeros(k) + s.drop_last());
        lemma_zeros_prefix_val(k, s.drop_last());
    }
}

/// Distinct frame indices get distinct output file names: the name alone
/// determines which frame a file holds.
pub proof fn lemma_frame_name_injective(m: int, n: int)
    requires
        m >= 0,
        n >= 0,
        frame_name(m) == frame_name(n),
    ensures
        m == n,
{
    let pm = zero_padded6(dec_seq(m));
    let pn = zero_padded6(dec_seq(n));
    assert(frame_name(m) == pm + ".txt"@);
    assert(frame_name(n) == pn + ".txt"@);
    assert((pm + ".txt"@).len() == pm.len() + ".txt"@.len());
    assert((pn + ".txt"@).len() == pn.len() + ".txt"@.len());
    assert(pm.len() == pn.len());
    assert(pm =~= (pm + ".txt"@).subrange(0, pm.len() as int));
    assert(pn =~= (pn + ".txt"@).subrange(0, pn.len() as int));
    assert(pm == pn);
    lemma_zeros_prefix_val(6 - dec_seq(m).len(), dec_seq(m));
    lemma_zeros_prefix_val(6 - dec_seq(n).len(), dec_seq(n));
    lemma_dec_seq_val(m);
    lemma_dec_seq_val(n);
}

/// The files on disk after the frames' outputs are written in the given
/// completion order: for each position, the name for that frame's 1-based
/// index now maps to that frame's content.
pub open spec fn written(contents: Seq<Seq<char>>, order: Seq<int>) -> Map<Seq<char>, Seq<char>>
    decreases order.len(),
{
    if order.len() == 0 {
        Map::empty()
    } else {
        written(contents, order.drop_last())
            .insert(frame_name(order.last() + 1), contents[order.last()])
    }
}

/// The frame indices in their natural order.
pub open spec fn iota(n: int) -> Seq<int> {
    Seq::new(n as nat, |i: int| i)
}

/// What `written` holds after any injective, in-range completion order: each
/// written name maps to its own frame's content, and nothing else is there.
proof fn lemma_written_characterize(contents: Seq<Seq<char>>, order: Seq<int>)
    requires
        forall|i: int| 0 <= i < order.len() ==> 0 <= #[trigger] order[i] < contents.len(),
        forall|i: int, j: int| 0 <= i < j < order.len() ==> order[i] != order[j],
    ensures
        forall|i: int| 0 <= i < order.len() ==> {
            &&& written(contents, order).dom().contains(#[trigger] frame_name(order[i] + 1))
            &&& written(contents, order)[frame_name(order[i] + 1)] == contents[order[i]]
        },
        forall|k: Seq<char>| written(contents, order).dom().contains(k)
            ==> exists|i: int| 0 <= i < order.len() && k == frame_name(#[trigger] order[i] + 1),
    decreases order.len(),
{
    if order.len() > 0 {
        let o = order.drop_last();
        let t = order.last();
        lemma_written_characterize(contents, o);
        assert forall|i: int| 0 <= i < order.len() - 1
            implies frame_name(order[i] + 1) != frame_name(t + 1) by {
            if frame_name(order[i] + 1) == frame_name(t + 1) {
                lemma_frame_name_injective(order[i] + 1, t + 1);
            }
        }
        assert forall|i: int| 0 <= i < order.len() implies {
            &&& written(contents, order).dom().contains(#[trigger] frame_name(order[i] + 1))
            &&& written(contents, order)[frame_name(order[i] + 1)] == contents[order[i]]
        } by {
            if i < order.len() - 1 {
                assert(o[i] == order[i]);
                assert(written(contents, o).dom().contains(frame_name(o[i] + 1)));
                assert(written(contents, o)[frame_name(o[i] + 1)] == contents[o[i]]);
                assert(frame_name(order[i] + 1) != frame_name(t + 1));
            } else {
                assert(order[i] == t);
            }
        }
        assert forall|k: Seq<char>| written(contents, order).dom().contains(k)
            implies exists|i: int| 0 <= i < order.len() && k == frame_name(#[trigger] order[i] + 1) by {
            if k == frame_name(t + 1) {
                assert(order[order.len() - 1] == t);
            } else {
                assert(written(contents, o).dom().contains(k));
                let i = choose|i: int| 0 <= i < o.len() && k == frame_name(#[trigger] o[i] + 1);
                assert(order[i] == o[i]);
            }
        }
    }
}

/// Order independence of the batch pipeline: workers may finish in any
/// order — each frame exactly once — and the files written are exactly the
/// planned ones: one file per frame, named by the frame's 1-based zero-padded
/// index, holding that frame's own content.
pub proof fn lemma_batch_order_independent(contents: Seq<Seq<char>>, order: Seq<int>)
    requires
        forall|i: int| 0 <= i < order.len() ==> 0 <= #[trigger] order[i] < contents.len(),
        forall|i: int, j: int| 0 <= i < j < order.len() ==> order[i] != order[j],
        forall|k: int| 0 <= k < contents.len() ==> order.contains(k),
    ensures
        written(contents, order) == written(contents, iota(contents.len() as int)),
        forall|i: int| 0 <= i < contents.len()
            ==> written(contents, order)[#[trigger] frame_name(i + 1)] == contents[i],
        forall|k: Seq<char>| written(contents, order).dom().contains(k)
            <==> exists|i: int| 0 <= i < contents.len() && k == #[trigger] frame_name(i + 1),
{
    let n = contents.len() as int;
    let m1 = written(contents, order);
    let m2 = written(contents, iota(n));
    lemma_written_characterize(contents, order);
    lemma_written_characterize(contents, iota(n));
    assert forall|i: int| 0 <= i < n
        implies m1.dom().contains(#[trigger] frame_name(i + 1))
            && m1[frame_name(i + 1)] == contents[i] by {
        let j = choose|j: int| 0 <= j < order.len() && order[j] == i;
        assert(order.contains(i));
        assert(frame_name(order[j] + 1) == frame_name(i + 1));
    }
    assert forall|k: Seq<char>| m1.dom().contains(k) implies m2.dom().contains(k) && m1[k] == m2[k] by {
        let i = choose|i: int| 0 <= i < order.len() && k == frame_name(#[trigger] order[i] + 1);
        let f = order[i];
        assert(iota(n)[f] == f);
        assert(m2.dom().contains(frame_name(f + 1)) && m2[frame_name(f + 1)] == contents[f]);
        assert(m1[frame_name(f + 1)] == contents[f]);
    }
    assert forall|k: Seq<char>| m2.dom().contains(k) implies m1.dom().contains(k) by {
        let i = choose|i: int| 0 <= i < iota(n).len() && k == frame_name(#[trigger] iota(n)[i] + 1);
        assert(m1.dom().contains(frame_name(i + 1)));
    }
    assert(m1 =~= m2);
}

} // verus!
