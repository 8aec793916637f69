//! Shape signatures: a sequence of tokens written as letters, where each distinct
//! token gets the next letter in order of first appearance (`[x, y, x]` is `"ABA"`).
use vstd::prelude::*;
use crate::text::{chars_of, push_char};
use vstd::string::*;

verus! {

/// The distinct tokens of `p`, in order of first appearance.
pub open spec fn spec_seen<A>(p: Seq<A>) -> Seq<A>
    decreases p.len(),
{
    if p.len() == 0 {
        Seq::empty()
    } else {
        let s = spec_seen(p.drop_last());
        if s.contains(p.last()) {
            s
        } else {
            s.push(p.last())
        }
    }
}

/// The position of `t` in a sequence without duplicates.
pub open spec fn spec_index_of<A>(s: Seq<A>, t: A) -> int {
    choose|i: int| 0 <= i < s.len() && s[i] == t
}

/// The letter for the token with first-appearance rank `i`: `A`..`Z`, then `?`.
pub open spec fn spec_letter(i: int) -> char {
    if 0 <= i < 26 {
        (65 + i) as char
    } else {
        '?'
    }
}

/// The shape signature of `p`.
pub open spec fn spec_shape<A>(p: Seq<A>) -> Seq<char>
    decreases p.len(),
{
    if p.len() == 0 {
        Seq::empty()
    } else {
        spec_shape(p.drop_last()).push(spec_letter(spec_index_of(spec_seen(p), p.last())))
    }
}

pub proof fn lemma_seen_distinct<A>(p: Seq<A>)
    ensures
        spec_seen(p).no_duplicates(),
    decreases p.len(),
{
    if p.len() > 0 {
        lemma_seen_distinct(p.drop_last());
    }
}

pub proof fn lemma_seen_covers<A>(p: Seq<A>)
    ensures
        forall|i: int| 0 <= i < p.len() ==> #[trigger] spec_seen(p).contains(p[i]),
        forall|x: A| #[trigger] spec_seen(p).contains(x) ==> p.contains(x),
        spec_seen(p).len() <= p.len(),
    decreases p.len(),
{
    if p.len() > 0 {
        let q = p.drop_last();
        lemma_seen_covers(q);
        let sq = spec_seen(q);
        let sp = spec_seen(p);
        assert forall|x: A| sq.contains(x) implies sp.contains(x) by {
            let k = choose|k: int| 0 <= k < sq.len() && sq[k] == x;
            if !sq.contains(p.last()) {
                assert(sp[k] == x);
            }
        }
        assert(sp.contains(p.last())) by {
            if !sq.contains(p.last()) {
                assert(sp[sq.len() as int] == p.last());
            }
        }
        assert forall|i: int| 0 <= i < p.len() implies #[trigger] sp.contains(p[i]) by {
            if i < p.len() - 1 {
                assert(q[i] == p[i]);
                assert(sq.contains(q[i]));
            }
        }
        assert forall|x: A| #[trigger] sp.contains(x) implies p.contains(x) by {
            if sq.contains(x) {
                let k = choose|k: int| 0 <= k < q.len() && q[k] == x;
                assert(p[k] == x);
            } else {
                assert(p[p.len() - 1] == x);
            }
        }
    }
}

pub proof fn lemma_shape_len<A>(p: Seq<A>)
    ensures
        spec_shape(p).len() == p.len(),
    decreases p.len(),
{
    if p.len() > 0 {
        lemma_shape_len(p.drop_last());
    }
}

/// The character `A` + `i`, or `?` once the 26 letters are used up.
fn letter(i: usize) -> (c: char)
    ensures
        c == spec_letter(i as int),
{
    if i < 26 {
        (65u8 + i as u8) as char
    } else {
        '?'
    }
}

/// The position of `t` in `keys`, if it occurs there.
pub fn find_key(keys: &Vec<String>, t: &String) -> (r: Option<usize>)
    ensures
        r matches Some(k) ==> k < keys.len() && keys.deep_view()[k as int] == t@,
        r is None ==> !keys.deep_view().contains(t@),
{
    let mut k: usize = 0;
    while k < keys.len()
        invariant
            k <= keys.len(),
            forall|j: int| 0 <= j < k ==> keys.deep_view()[j] != t@,
        decreases keys.len() - k,
    {
        if keys[k] == *t {
            return Some(k);
        }
        k = k + 1;
    }
    None
}

/// Shape signature of a sequence of stat keys.
pub fn shape_signature(pattern: &[String]) -> (r: String)
    ensures
        r@ == spec_shape(pattern.deep_view()),
{
    let ghost p = pattern.deep_view();
    let mut seen: Vec<String> = Vec::new();
    let mut out = String::new();
    let mut i: usize = 0;
    while i < pattern.len()
        invariant
            p == pattern.deep_view(),
            i <= pattern.len(),
            seen.deep_view() == spec_seen(p.take(i as int)),
            out@ == spec_shape(p.take(i as int)),
        decreases pattern.len() - i,
    {
        let ghost q = p.take(i as int + 1);
        assert(q.drop_last() =~= p.take(i as int));
        assert(q.last() == p[i as int]);
        proof {
            lemma_seen_distinct(q.drop_last());
        }
        let found = find_key(&seen, &pattern[i]);
        let k: usize = match found {
            Some(k) => k,
            None => {
                seen.push(pattern[i].clone());
                assert(seen.deep_view() =~= spec_seen(q.drop_last()).push(q.last()));
                seen.len() - 1
            },
        };
        assert(seen.deep_view()[k as int] == q.last());
        proof {
            lemma_seen_distinct(q);
            assert(seen.deep_view() == spec_seen(q));
            assert(spec_seen(q)[k as int] == q.last());
            assert(spec_index_of(spec_seen(q), q.last()) == k);
        }
        let c = letter(k);
        push_char(&mut out, c);
        i = i + 1;
    }
    assert(p.take(pattern.len() as int) =~= p);
    out
}

/// Shape signature of a sequence of string slices.
pub fn shape_signature_slice(pattern: &[&str]) -> (r: String)
    ensures
        r@ == spec_shape(pattern.deep_view()),
{
    let mut owned: Vec<String> = Vec::new();
    let mut i: usize = 0;
    while i < pattern.len()
        invariant
            i <= pattern.len(),
            owned.len() == i,
            forall|j: int| 0 <= j < i ==> owned@[j]@ == pattern@[j]@,
        decreases pattern.len() - i,
    {
        let t: String = pattern[i].to_owned();
        owned.push(t);
        i = i + 1;
    }
    assert(owned.deep_view() =~= pattern.deep_view());
    shape_signature(owned.as_slice())
}

/// Whether `c` is an ASCII letter.
pub open spec fn spec_is_letter(c: char) -> bool {
    ('a' <= c && c <= 'z') || ('A' <= c && c <= 'Z')
}

/// The ASCII upper-case form of `c` (other characters are left alone).
pub open spec fn spec_upper(c: char) -> char {
    if 'a' <= c && c <= 'z' {
        ((c as u32) - 32) as char
    } else {
        c
    }
}

/// The ASCII letters of `s`, upper-cased, in order.
pub open spec fn spec_letters(s: Seq<char>) -> Seq<char>
    decreases s.len(),
{
    if s.len() == 0 {
        Seq::empty()
    } else if spec_is_letter(s.last()) {
        spec_letters(s.drop_last()).push(spec_upper(s.last()))
    } else {
        spec_letters(s.drop_last())
    }
}

/// What `canonicalize_shape` gives for `raw`.
pub open spec fn spec_canonical_shape(raw: Seq<char>) -> Option<Seq<char>> {
    let letters = spec_letters(raw);
    if letters.len() < 2 || letters.len() > 16 {
        None
    } else {
        Some(spec_shape(letters))
    }
}

fn find_char(seen: &Vec<char>, c: char) -> (r: Option<usize>)
    ensures
        r matches Some(k) ==> k < seen.len() && seen@[k as int] == c,
        r is None ==> !seen@.contains(c),
{
    let mut k: usize = 0;
    while k < seen.len()
        invariant
            k <= seen.len(),
            forall|j: int| 0 <= j < k ==> seen@[j] != c,
        decreases seen.len() - k,
    {
        if seen[k] == c {
            return Some(k);
        }
        k = k + 1;
    }
    None
}

/// Normalises a hand-written shape guess: keeps the ASCII letters, upper-cases them and
/// renames them in order of first appearance; `None` unless 2 to 16 letters remain.
pub fn canonicalize_shape(raw: &str) -> (r: Option<String>)
    ensures
        r matches Some(s) ==> spec_canonical_shape(raw@) == Some(s@),
        r is None ==> spec_canonical_shape(raw@) is None,
{
    let chars = chars_of(raw);
    let mut letters: Vec<char> = Vec::new();
    let mut i: usize = 0;
    while i < chars.len()
        invariant
            i <= chars.len(),
            chars@ == raw@,
            letters@ == spec_letters(raw@.take(i as int)),
        decreases chars.len() - i,
    {
        let c = chars[i];
        assert(raw@.take(i as int + 1).drop_last() =~= raw@.take(i as int));
        if ('a' <= c && c <= 'z') {
            letters.push(((c as u8) - 32) as char);
        } else if ('A' <= c && c <= 'Z') {
            letters.push(c);
        }
        i = i + 1;
    }
    assert(raw@.take(chars.len() as int) =~= raw@);
    if letters.len() < 2 || letters.len() > 16 {
        return None;
    }
    let ghost p = letters@;
    let mut seen: Vec<char> = Vec::new();
    let mut out = String::new();
    let mut j: usize = 0;
    while j < letters.len()
        invariant
            p == letters@,
            j <= letters.len(),
            letters.len() <= 16,
            seen@ == spec_seen(p.take(j as int)),
            out@ == spec_shape(p.take(j as int)),
        decreases letters.len() - j,
    {
        let ghost q = p.take(j as int + 1);
        assert(q.drop_last() =~= p.take(j as int));
        proof {
            lemma_seen_distinct(q.drop_last());
            lemma_seen_covers(q.drop_last());
        }
        let k: usize = match find_char(&seen, letters[j]) {
            Some(k) => k,
            None => {
                if seen.len() >= 26 {
                    return None;
                }
                seen.push(letters[j]);
                assert(seen@ =~= spec_seen(q.drop_last()).push(q.last()));
                seen.len() - 1
            },
        };
        proof {
            lemma_seen_distinct(q);
            assert(seen@[k as int] == q.last());
            assert(spec_index_of(spec_seen(q), q.last()) == k);
        }
        let c = letter(k);
        push_char(&mut out, c);
        j = j + 1;
    }
    assert(p.take(letters.len() as int) =~= p);
    Some(out)
}

/// Whether `seq` ends with `suffix`.
pub fn ends_with_pattern(seq: &[String], suffix: &[String]) -> (r: bool)
    ensures
        r == (suffix.len() <= seq.len() && seq.deep_view().subrange(
            seq.len() - suffix.len(),
            seq.len() as int,
        ) == suffix.deep_view()),
{
    if suffix.len() > seq.len() {
        return false;
    }
    let start = seq.len() - suffix.len();
    let mut i: usize = 0;
    while i < suffix.len()
        invariant
            start == seq.len() - suffix.len(),
            i <= suffix.len(),
            forall|j: int| 0 <= j < i ==> seq.deep_view()[start + j] == suffix.deep_view()[j],
        decreases suffix.len() - i,
    {
        if seq[start + i] != suffix[i] {
            assert(seq.deep_view().subrange(start as int, seq.len() as int)[i as int]
                != suffix.deep_view()[i as int]);
            return false;
        }
        i = i + 1;
    }
    assert(seq.deep_view().subrange(start as int, seq.len() as int) =~= suffix.deep_view());
    true
}

/// Whether the symbols of `sh` and the tokens of `suf` agree position by position as a
/// renaming: two positions carry the same symbol exactly when they carry the same token.
pub open spec fn spec_consistent(sh: Seq<char>, suf: Seq<Seq<char>>) -> bool {
    forall|i: int, j: int|
        0 <= i < suf.len() && 0 <= j < suf.len() ==> ((sh[i] == sh[j]) <==> (suf[i] == suf[j]))
}

/// The token that shape `sh` predicts after `suf`: `sh` is one symbol longer than `suf`, the
/// symbols of `sh` rename the tokens of `suf`, and the last symbol of `sh` occurs before.
pub open spec fn spec_infer_next(sh: Seq<char>, suf: Seq<Seq<char>>) -> Option<Seq<char>> {
    if sh.len() != suf.len() + 1 || !spec_consistent(sh, suf) {
        None
    } else if exists|k: int| 0 <= k < suf.len() && sh[k] == sh.last() {
        Some(suf[choose|k: int| 0 <= k < suf.len() && sh[k] == sh.last()])
    } else {
        None
    }
}

/// `spec_infer_next` for the shape `sh[..m]` and the tokens `seq[start..]`.
fn infer_next_core(sh: &Vec<char>, m: usize, seq: &[String], start: usize) -> (r: Option<String>)
    requires
        m <= sh.len(),
        start <= seq.len(),
    ensures
        r matches Some(t) ==> spec_infer_next(
            sh@.take(m as int),
            seq.deep_view().subrange(start as int, seq.len() as int),
        ) == Some(t@),
        r is None ==> spec_infer_next(
            sh@.take(m as int),
            seq.deep_view().subrange(start as int, seq.len() as int),
        ) is None,
{
    let ghost shp = sh@.take(m as int);
    let ghost suf = seq.deep_view().subrange(start as int, seq.len() as int);
    let n = seq.len() - start;
    if m == 0 || m - 1 != n {
        return None;
    }
    let mut i: usize = 0;
    while i < n
        invariant
            n == seq.len() - start,
            m == n + 1,
            m <= sh.len(),
            start <= seq.len(),
            shp == sh@.take(m as int),
            suf == seq.deep_view().subrange(start as int, seq.len() as int),
            i <= n,
            forall|a: int, b: int|
                0 <= a < i && 0 <= b < i ==> ((shp[a] == shp[b]) <==> (suf[a] == suf[b])),
        decreases n - i,
    {
        let mut j: usize = 0;
        while j < i
            invariant
                n == seq.len() - start,
                m == n + 1,
                m <= sh.len(),
                start <= seq.len(),
                shp == sh@.take(m as int),
                suf == seq.deep_view().subrange(start as int, seq.len() as int),
                j <= i,
                i < n,
                forall|b: int| 0 <= b < j ==> ((shp[i as int] == shp[b]) <==> (suf[i as int] == suf[b])),
            decreases i - j,
        {
            let same_sym = sh[i] == sh[j];
            let same_tok = seq[start + i] == seq[start + j];
            assert(suf[i as int] == seq.deep_view()[start + i]);
            assert(suf[j as int] == seq.deep_view()[start + j]);
            if same_sym != same_tok {
                assert(!spec_consistent(shp, suf));
                return None;
            }
            j = j + 1;
        }
        i = i + 1;
    }
    assert(spec_consistent(shp, suf));
    let last = sh[m - 1];
    let mut k: usize = 0;
    while k < n
        invariant
            n == seq.len() - start,
            m == n + 1,
            m <= sh.len(),
            start <= seq.len(),
            shp == sh@.take(m as int),
            suf == seq.deep_view().subrange(start as int, seq.len() as int),
            last == shp.last(),
            spec_consistent(shp, suf),
            k <= n,
            forall|b: int| 0 <= b < k ==> shp[b] != last,
        decreases n - k,
    {
        if sh[k] == last {
            let ghost c = choose|c: int| 0 <= c < suf.len() && shp[c] == shp.last();
            assert(shp[k as int] == shp.last());
            assert(suf[c] == suf[k as int]);
            assert(suf[k as int] == seq.deep_view()[start + k]);
            return Some(seq[start + k].clone());
        }
        k = k + 1;
    }
    None
}

/// The stat that `shape` predicts after the tokens `suffix` (see `spec_infer_next`).
pub fn infer_next_stat_from_shape(shape: &str, suffix: &[String]) -> (r: Option<String>)
    ensures
        r matches Some(t) ==> spec_infer_next(shape@, suffix.deep_view()) == Some(t@),
        r is None ==> spec_infer_next(shape@, suffix.deep_view()) is None,
{
    let chars = chars_of(shape);
    assert(chars@.take(chars.len() as int) =~= shape@);
    assert(suffix.deep_view().subrange(0, suffix.len() as int) =~= suffix.deep_view());
    infer_next_core(&chars, chars.len(), suffix, 0)
}

/// Tries the prefixes `g[..=k]` of a guessed shape for `k` from `from` down to 1, each against
/// the last `k` tokens of `seq`, and keeps the first prediction.
pub open spec fn spec_hint_from(seq: Seq<Seq<char>>, g: Seq<char>, k: int) -> Option<Seq<char>>
    decreases k,
{
    if k < 1 {
        None
    } else {
        let r = if k <= seq.len() {
            spec_infer_next(g.take(k + 1), seq.subrange(seq.len() - k, seq.len() as int))
        } else {
            None
        };
        if r is Some {
            r
        } else {
            spec_hint_from(seq, g, k - 1)
        }
    }
}

/// The next stat hinted by a guessed shape, longest matching prefix first.
pub open spec fn spec_hint(seq: Seq<Seq<char>>, g: Seq<char>) -> Option<Seq<char>> {
    if g.len() < 2 {
        None
    } else {
        spec_hint_from(seq, g, g.len() - 1)
    }
}

/// The next stat that the guessed shape `guess_shape` hints at after `seq`.
pub fn infer_hint_from_guess(seq: &[String], guess_shape: &str) -> (r: Option<String>)
    ensures
        r matches Some(t) ==> spec_hint(seq.deep_view(), guess_shape@) == Some(t@),
        r is None ==> spec_hint(seq.deep_view(), guess_shape@) is None,
{
    let chars = chars_of(guess_shape);
    if chars.len() < 2 {
        return None;
    }
    let mut k: usize = chars.len() - 1;
    while k >= 1
        invariant
            chars@ == guess_shape@,
            chars.len() >= 2,
            k < chars.len(),
            spec_hint(seq.deep_view(), guess_shape@) == spec_hint_from(
                seq.deep_view(),
                guess_shape@,
                k as int,
            ),
        decreases k,
    {
        if k <= seq.len() {
            let r = infer_next_core(&chars, k + 1, seq, seq.len() - k);
            if r.is_some() {
                return r;
            }
        }
        k = k - 1;
    }
    None
}

/// The number of positions below `n` at which `a` and `b` differ.
pub open spec fn spec_mismatches(a: Seq<char>, b: Seq<char>, n: int) -> nat
    decreases n,
{
    if n <= 0 {
        0
    } else if a[n - 1] != b[n - 1] {
        spec_mismatches(a, b, n - 1) + 1
    } else {
        spec_mismatches(a, b, n - 1)
    }
}

pub proof fn lemma_mismatches_bound(a: Seq<char>, b: Seq<char>, n: int)
    requires
        n >= 0,
    ensures
        spec_mismatches(a, b, n) <= n,
    decreases n,
{
    if n > 0 {
        lemma_mismatches_bound(a, b, n - 1);
    }
}

fn mismatch_count(a: &Vec<char>, b: &Vec<char>) -> (r: usize)
    requires
        a.len() == b.len(),
    ensures
        r == spec_mismatches(a@, b@, a.len() as int),
{
    let mut count: usize = 0;
    let mut i: usize = 0;
    while i < a.len()
        invariant
            a.len() == b.len(),
            i <= a.len(),
            count == spec_mismatches(a@, b@, i as int),
            count <= i,
        decreases a.len() - i,
    {
        if a[i] != b[i] {
            count = count + 1;
        }
        i = i + 1;
    }
    count
}

/// The Hamming distance of two shapes, `None` when their lengths differ.
pub fn shape_hamming_distance(lhs: &str, rhs: &str) -> (r: Option<usize>)
    ensures
        r matches Some(d) ==> lhs@.len() == rhs@.len() && d == spec_mismatches(
            lhs@,
            rhs@,
            lhs@.len() as int,
        ),
        r is None ==> lhs@.len() != rhs@.len(),
{
    let a = chars_of(lhs);
    let b = chars_of(rhs);
    if a.len() != b.len() {
        return None;
    }
    Some(mismatch_count(&a, &b))
}

/// What `infer_next_stat_from_approx_shape` gives: the prefix of `sh` may differ from the
/// shape of `suf` in at most one position; the prediction is the token at the first position
/// whose symbol is the last symbol of `sh`, paired with the number of differing positions.
pub open spec fn spec_infer_approx(sh: Seq<char>, suf: Seq<Seq<char>>) -> Option<
    (Seq<char>, nat),
> {
    if sh.len() != suf.len() + 1 {
        None
    } else {
        let d = spec_mismatches(sh.drop_last(), spec_shape(suf), suf.len() as int);
        if d > 1 {
            None
        } else if exists|k: int| 0 <= k < suf.len() && sh[k] == sh.last() {
            let k = choose|k: int|
                0 <= k < suf.len() && sh[k] == sh.last() && forall|b: int|
                    0 <= b < k ==> sh[b] != sh.last();
            Some((suf[k], d))
        } else {
            None
        }
    }
}

/// Like `infer_next_stat_from_shape`, tolerating one differing symbol in the prefix.
pub fn infer_next_stat_from_approx_shape(shape: &str, suffix: &[String]) -> (r: Option<
    (String, usize),
>)
    ensures
        r matches Some((t, d)) ==> spec_infer_approx(shape@, suffix.deep_view()) == Some(
            (t@, d as nat),
        ),
        r is None ==> spec_infer_approx(shape@, suffix.deep_view()) is None,
{
    let chars = chars_of(shape);
    if chars.len() == 0 || chars.len() - 1 != suffix.len() {
        return None;
    }
    let n = suffix.len();
    let mut prefix: Vec<char> = Vec::new();
    let mut i: usize = 0;
    while i < n
        invariant
            n == suffix.len(),
            chars.len() == n + 1,
            i <= n,
            prefix@ =~= chars@.take(i as int),
        decreases n - i,
    {
        prefix.push(chars[i]);
        i = i + 1;
    }
    assert(prefix@ =~= shape@.drop_last());
    let suffix_shape = shape_signature(suffix);
    let sshape = chars_of(suffix_shape.as_str());
    proof {
        lemma_shape_len(suffix.deep_view());
    }
    let mismatches = mismatch_count(&prefix, &sshape);
    assert(sshape@ == spec_shape(suffix.deep_view()));
    if mismatches > 1 {
        return None;
    }
    let last = chars[n];
    let mut k: usize = 0;
    while k < n
        invariant
            n == suffix.len(),
            chars.len() == n + 1,
            chars@ == shape@,
            last == shape@.last(),
            mismatches <= 1,
            mismatches == spec_mismatches(shape@.drop_last(), spec_shape(suffix.deep_view()), n as int),
            k <= n,
            forall|b: int| 0 <= b < k ==> shape@[b] != last,
        decreases n - k,
    {
        if chars[k] == last {
            let ghost c = choose|c: int|
                0 <= c < suffix.len() && shape@[c] == shape@.last() && forall|b: int|
                    0 <= b < c ==> shape@[b] != shape@.last();
            assert(0 <= k < suffix.len() && shape@[k as int] == shape@.last() && forall|b: int|
                0 <= b < k ==> shape@[b] != shape@.last());
            assert(c == k) by {
                if c < k {
                    assert(shape@[c] != last);
                } else if c > k {
                    assert(shape@[k as int] != shape@.last());
                }
            }
            return Some((suffix[k].clone(), mismatches));
        }
        k = k + 1;
    }
    None
}

/// The last (at most) eight tokens joined with `>`, or `"empty"`.
pub open spec fn spec_tail_signature(seq: Seq<Seq<char>>) -> Seq<char> {
    let n = if seq.len() < 8 { seq.len() as int } else { 8 };
    if n == 0 {
        "empty"@
    } else {
        spec_join(seq.subrange(seq.len() - n, seq.len() as int), ">"@)
    }
}

/// The parts joined with `sep` between consecutive parts.
pub open spec fn spec_join(parts: Seq<Seq<char>>, sep: Seq<char>) -> Seq<char>
    decreases parts.len(),
{
    if parts.len() == 0 {
        Seq::empty()
    } else if parts.len() == 1 {
        parts[0]
    } else {
        spec_join(parts.drop_last(), sep) + sep + parts.last()
    }
}

/// Compact signature of the end of a sequence.
pub fn build_tail_signature(seq: &[String]) -> (r: String)
    ensures
        r@ == spec_tail_signature(seq.deep_view()),
{
    let tail_len: usize = if seq.len() < 8 { seq.len() } else { 8 };
    if tail_len == 0 {
        return "empty".to_owned();
    }
    let start = seq.len() - tail_len;
    let ghost parts = seq.deep_view().subrange(start as int, seq.len() as int);
    let mut out: String = seq[start].clone();
    let mut i: usize = 1;
    assert(parts.take(1).drop_last() =~= Seq::<Seq<char>>::empty());
    while i < tail_len
        invariant
            start == seq.len() - tail_len,
            1 <= i <= tail_len,
            parts == seq.deep_view().subrange(start as int, seq.len() as int),
            out@ == spec_join(parts.take(i as int), ">"@),
        decreases tail_len - i,
    {
        assert(parts.take(i as int + 1).drop_last() =~= parts.take(i as int));
        out.append(">");
        out.append(seq[start + i].as_str());
        i = i + 1;
    }
    assert(parts.take(tail_len as int) =~= parts);
    out
}

} // verus!
