//! Byte- and text-sequence utilities shared by the request parser, the
//! response serializer and the settings loader: first-occurrence
//! searches, separator splits, whitespace token scanning, decimal
//! parsing and formatting, and ASCII pushing.

use vstd::prelude::*;
use vstd::string::StrSliceExecFns;

verus! {

/// A two-byte separator `a b` stands at index `i` of `s`.
pub open spec fn sep2_at(s: Seq<u8>, a: u8, b: u8, i: int) -> bool {
    0 <= i && i + 2 <= s.len() && s[i] == a && s[i + 1] == b
}

/// Index of the first two-byte separator `a b` in `s`; `s.len()` when none.
pub open spec fn first_sep2(s: Seq<u8>, a: u8, b: u8) -> int
    decreases s.len(),
{
    if s.len() < 2 {
        s.len() as int
    } else if s[0] == a && s[1] == b {
        0
    } else {
        1 + first_sep2(s.skip(1), a, b)
    }
}

pub proof fn lemma_first_sep2(s: Seq<u8>, a: u8, b: u8)
    ensures
        0 <= first_sep2(s, a, b) <= s.len(),
        first_sep2(s, a, b) + 2 <= s.len() ==> sep2_at(s, a, b, first_sep2(s, a, b)),
        forall|j: int| 0 <= j < first_sep2(s, a, b) ==> !sep2_at(s, a, b, j),
        first_sep2(s, a, b) + 2 > s.len() ==> first_sep2(s, a, b) == s.len(),
    decreases s.len(),
{
    if s.len() < 2 {
    } else if s[0] == a && s[1] == b {
    } else {
        lemma_first_sep2(s.skip(1), a, b);
        assert forall|j: int| 0 <= j < first_sep2(s, a, b) implies !sep2_at(s, a, b, j) by {
            if j > 0 {
                assert(!sep2_at(s.skip(1), a, b, j - 1));
                assert(s.skip(1)[j - 1] == s[j]);
                if j + 2 <= s.len() {
                    assert(s.skip(1)[j] == s[j + 1]);
                }
            }
        }
    }
}

/// The first separator index is the unique position that carries the
/// separator and has none before it.
pub proof fn lemma_first_sep2_unique(s: Seq<u8>, a: u8, b: u8, i: int)
    requires
        0 <= i <= s.len(),
        i + 2 <= s.len() ==> sep2_at(s, a, b, i),
        forall|j: int| 0 <= j < i ==> !sep2_at(s, a, b, j),
        i + 2 > s.len() ==> i == s.len(),
    ensures
        first_sep2(s, a, b) == i,
{
    lemma_first_sep2(s, a, b);
    let f = first_sep2(s, a, b);
    if i + 2 <= s.len() {
        if f < i {
            assert(!sep2_at(s, a, b, f));
            assert(f + 2 <= s.len());
        }
        if i < f {
            assert(!sep2_at(s, a, b, i));
        }
    } else {
        if f + 2 <= s.len() {
            assert(!sep2_at(s, a, b, f));
        }
    }
}

/// Finds the first two-byte separator `a b` at or after `from`;
/// returns `s.len()` when there is none.
pub fn find_sep2(s: &[u8], from: usize, a: u8, b: u8) -> (r: usize)
    requires
        from <= s@.len(),
    ensures
        r - from == first_sep2(s@.skip(from as int), a, b),
        from <= r <= s@.len(),
{
    let n = s.len();
    let mut i = from;
    loop
        invariant
            from <= i <= n,
            n == s@.len(),
            forall|j: int| from <= j < i ==> !sep2_at(s@, a, b, j),
        decreases n - i,
    {
        if n - i < 2 {
            proof {
                assert forall|j: int| 0 <= j < n - from implies !sep2_at(
                    s@.skip(from as int),
                    a,
                    b,
                    j,
                ) by {
                    if j + 2 <= n - from {
                        assert(s@.skip(from as int)[j] == s@[from + j]);
                        assert(s@.skip(from as int)[j + 1] == s@[from + j + 1]);
                        assert(from + j < i);
                        assert(!sep2_at(s@, a, b, from + j));
                    }
                }
                lemma_first_sep2_unique(s@.skip(from as int), a, b, s@.len() - from);
            }
            return n;
        }
        if s[i] == a && s[i + 1] == b {
            proof {
                assert(s@.skip(from as int)[i - from] == s@[i as int]);
                assert(s@.skip(from as int)[i - from + 1] == s@[i + 1]);
                assert(sep2_at(s@.skip(from as int), a, b, i - from));
                assert forall|j: int| 0 <= j < i - from implies !sep2_at(
                    s@.skip(from as int),
                    a,
                    b,
                    j,
                ) by {
                    assert(s@.skip(from as int)[j] == s@[from + j]);
                    assert(s@.skip(from as int)[j + 1] == s@[from + j + 1]);
                    assert(!sep2_at(s@, a, b, from + j));
                }
                lemma_first_sep2_unique(s@.skip(from as int), a, b, i - from);
            }
            return i;
        }
        i = i + 1;
    }
}

/// The four-byte header terminator CR LF CR LF stands at index `i` of `s`.
pub open spec fn term_at(s: Seq<u8>, i: int) -> bool {
    0 <= i && i + 4 <= s.len() && s[i] == 13 && s[i + 1] == 10 && s[i + 2] == 13 && s[i + 3] == 10
}

/// Index of the first header terminator in `s`; `s.len()` when none.
pub open spec fn first_term(s: Seq<u8>) -> int
    decreases s.len(),
{
    if s.len() < 4 {
        s.len() as int
    } else if s[0] == 13 && s[1] == 10 && s[2] == 13 && s[3] == 10 {
        0
    } else {
        1 + first_term(s.skip(1))
    }
}

/// Whether `s` holds a header terminator at all.
pub open spec fn has_term(s: Seq<u8>) -> bool {
    first_term(s) + 4 <= s.len()
}

pub proof fn lemma_first_term(s: Seq<u8>)
    ensures
        0 <= first_term(s) <= s.len(),
        first_term(s) + 4 <= s.len() ==> term_at(s, first_term(s)),
        forall|j: int| 0 <= j < first_term(s) ==> !term_at(s, j),
        first_term(s) + 4 > s.len() ==> first_term(s) == s.len(),
    decreases s.len(),
{
    if s.len() < 4 {
    } else if s[0] == 13 && s[1] == 10 && s[2] == 13 && s[3] == 10 {
    } else {
        lemma_first_term(s.skip(1));
        assert forall|j: int| 0 <= j < first_term(s) implies !term_at(s, j) by {
            if j > 0 && j + 4 <= s.len() {
                assert(!term_at(s.skip(1), j - 1));
                assert(s.skip(1)[j - 1] == s[j]);
                assert(s.skip(1)[j] == s[j + 1]);
                assert(s.skip(1)[j + 1] == s[j + 2]);
                assert(s.skip(1)[j + 2] == s[j + 3]);
            }
        }
    }
}

pub proof fn lemma_first_term_unique(s: Seq<u8>, i: int)
    requires
        0 <= i <= s.len(),
        i + 4 <= s.len() ==> term_at(s, i),
        forall|j: int| 0 <= j < i ==> !term_at(s, j),
        i + 4 > s.len() ==> i == s.len(),
    ensures
        first_term(s) == i,
{
    lemma_first_term(s);
    let f = first_term(s);
    if i + 4 <= s.len() {
        if f < i {
            assert(!term_at(s, f));
            assert(f + 4 <= s.len());
        }
        if i < f {
            assert(!term_at(s, i));
        }
    } else {
        if f + 4 <= s.len() {
            assert(!term_at(s, f));
        }
    }
}

/// Once a terminator stands in `s`, appending bytes moves neither its
/// place nor its presence.
pub proof fn lemma_first_term_prefix(s: Seq<u8>, t: Seq<u8>)
    requires
        has_term(s),
    ensures
        has_term(s + t),
        first_term(s + t) == first_term(s),
{
    lemma_first_term(s);
    let f = first_term(s);
    assert(term_at(s, f));
    assert((s + t)[f] == s[f]);
    assert((s + t)[f + 1] == s[f + 1]);
    assert((s + t)[f + 2] == s[f + 2]);
    assert((s + t)[f + 3] == s[f + 3]);
    assert(term_at(s + t, f));
    assert forall|j: int| 0 <= j < f implies !term_at(s + t, j) by {
        assert(!term_at(s, j));
        assert((s + t)[j] == s[j]);
        assert((s + t)[j + 1] == s[j + 1]);
        assert((s + t)[j + 2] == s[j + 2]);
        assert((s + t)[j + 3] == s[j + 3]);
    }
    lemma_first_term_unique(s + t, f);
}

/// Finds the first header terminator in `s`; returns `s.len()` when none.
pub fn find_terminator(s: &[u8]) -> (r: usize)
    ensures
        r as int == first_term(s@),
        r <= s@.len(),
{
    let n = s.len();
    let mut i: usize = 0;
    loop
        invariant
            i <= n,
            n == s@.len(),
            forall|j: int| 0 <= j < i ==> !term_at(s@, j),
        decreases n - i,
    {
        if n - i < 4 {
            proof {
                lemma_first_term_unique(s@, s@.len() as int);
            }
            return n;
        }
        if s[i] == 13 && s[i + 1] == 10 && s[i + 2] == 13 && s[i + 3] == 10 {
            proof {
                lemma_first_term_unique(s@, i as int);
            }
            return i;
        }
        i = i + 1;
    }
}

/// The pieces of `s` between occurrences of the separator `a b`, in order,
/// as `str::split` on a two-character pattern yields them.
pub open spec fn split_sep2(s: Seq<u8>, a: u8, b: u8) -> Seq<Seq<u8>>
    decreases s.len(),
    via split_sep2_decreases
{
    if first_sep2(s, a, b) + 2 <= s.len() {
        seq![s.take(first_sep2(s, a, b))] + split_sep2(s.skip(first_sep2(s, a, b) + 2), a, b)
    } else {
        seq![s]
    }
}

#[via_fn]
proof fn split_sep2_decreases(s: Seq<u8>, a: u8, b: u8) {
    lemma_first_sep2(s, a, b);
}

/// Splits `s` on the two-byte separator `a b`.
pub fn split2(s: &[u8], a: u8, b: u8) -> (r: Vec<Vec<u8>>)
    ensures
        r.deep_view() == split_sep2(s@, a, b),
{
    let n = s.len();
    let mut parts: Vec<Vec<u8>> = Vec::new();
    let mut pos: usize = 0;
    proof {
        assert(s@.skip(0) =~= s@);
        assert(parts.deep_view() + split_sep2(s@, a, b) =~~= split_sep2(s@, a, b));
    }
    loop
        invariant
            pos <= n,
            n == s@.len(),
            split_sep2(s@, a, b) == parts.deep_view() + split_sep2(s@.skip(pos as int), a, b),
        decreases n - pos,
    {
        let i = find_sep2(s, pos, a, b);
        let ghost rest = s@.skip(pos as int);
        let ghost prev = parts.deep_view();
        if n - i >= 2 {
            let piece = vstd::slice::slice_to_vec(vstd::slice::slice_subrange(s, pos, i));
            parts.push(piece);
            proof {
                assert(rest.take(first_sep2(rest, a, b)) =~= s@.subrange(pos as int, i as int));
                assert(rest.skip(first_sep2(rest, a, b) + 2) =~= s@.skip(i + 2));
                assert(split_sep2(rest, a, b) == seq![s@.subrange(pos as int, i as int)]
                    + split_sep2(s@.skip(i + 2), a, b));
                assert(parts.deep_view() =~~= prev + seq![s@.subrange(pos as int, i as int)]);
                assert(parts.deep_view() + split_sep2(s@.skip(i + 2), a, b) =~~= prev
                    + split_sep2(rest, a, b));
            }
            pos = i + 2;
        } else {
            let piece = vstd::slice::slice_to_vec(vstd::slice::slice_subrange(s, pos, n));
            parts.push(piece);
            proof {
                assert(first_sep2(rest, a, b) + 2 > rest.len());
                assert(split_sep2(rest, a, b) == seq![rest]);
                assert(s@.subrange(pos as int, n as int) =~= rest);
                assert(parts.deep_view() =~~= prev + seq![rest]);
                assert(parts.deep_view() =~~= prev + split_sep2(rest, a, b));
            }
            return parts;
        }
    }
}

/// Whitespace bytes, as the character-level whitespace test of the
/// standard library sees them within ASCII: tab through carriage return,
/// and the space.
pub open spec fn is_ws(b: u8) -> bool {
    b == 32 || (9 <= b && b <= 13)
}

/// Index of the first whitespace byte in `s`; `s.len()` when none.
pub open spec fn first_ws(s: Seq<u8>) -> int
    decreases s.len(),
{
    if s.len() == 0 {
        0
    } else if is_ws(s[0]) {
        0
    } else {
        1 + first_ws(s.skip(1))
    }
}

/// Index of the first non-whitespace byte in `s`; `s.len()` when none.
pub open spec fn first_non_ws(s: Seq<u8>) -> int
    decreases s.len(),
{
    if s.len() == 0 {
        0
    } else if !is_ws(s[0]) {
        0
    } else {
        1 + first_non_ws(s.skip(1))
    }
}

pub proof fn lemma_first_ws(s: Seq<u8>)
    ensures
        0 <= first_ws(s) <= s.len(),
        first_ws(s) < s.len() ==> is_ws(s[first_ws(s)]),
        forall|j: int| 0 <= j < first_ws(s) ==> !is_ws(s[j]),
    decreases s.len(),
{
    if s.len() == 0 || is_ws(s[0]) {
    } else {
        lemma_first_ws(s.skip(1));
        assert forall|j: int| 0 <= j < first_ws(s) implies !is_ws(s[j]) by {
            if j > 0 {
                assert(s.skip(1)[j - 1] == s[j]);
            }
        }
        if first_ws(s) < s.len() {
            assert(s.skip(1)[first_ws(s) - 1] == s[first_ws(s)]);
        }
    }
}

pub proof fn lemma_first_ws_unique(s: Seq<u8>, i: int)
    requires
        0 <= i <= s.len(),
        i < s.len() ==> is_ws(s[i]),
        forall|j: int| 0 <= j < i ==> !is_ws(s[j]),
    ensures
        first_ws(s) == i,
{
    lemma_first_ws(s);
    let f = first_ws(s);
    if f < i {
        assert(!is_ws(s[f]));
    }
    if i < f {
        assert(!is_ws(s[i]));
    }
}

pub proof fn lemma_first_non_ws(s: Seq<u8>)
    ensures
        0 <= first_non_ws(s) <= s.len(),
        first_non_ws(s) < s.len() ==> !is_ws(s[first_non_ws(s)]),
        forall|j: int| 0 <= j < first_non_ws(s) ==> is_ws(s[j]),
    decreases s.len(),
{
    if s.len() == 0 || !is_ws(s[0]) {
    } else {
        lemma_first_non_ws(s.skip(1));
        assert forall|j: int| 0 <= j < first_non_ws(s) implies is_ws(s[j]) by {
            if j > 0 {
                assert(s.skip(1)[j - 1] == s[j]);
            }
        }
        if first_non_ws(s) < s.len() {
            assert(s.skip(1)[first_non_ws(s) - 1] == s[first_non_ws(s)]);
        }
    }
}

pub proof fn lemma_first_non_ws_unique(s: Seq<u8>, i: int)
    requires
        0 <= i <= s.len(),
        i < s.len() ==> !is_ws(s[i]),
        forall|j: int| 0 <= j < i ==> is_ws(s[j]),
    ensures
        first_non_ws(s) == i,
{
    lemma_first_non_ws(s);
    let f = first_non_ws(s);
    if f < i {
        assert(is_ws(s[f]));
    }
    if i < f {
        assert(is_ws(s[i]));
    }
}

/// Index of the first non-whitespace byte at or after `from`;
/// `s.len()` when the rest is all whitespace.
pub fn skip_ws(s: &[u8], from: usize) -> (r: usize)
    requires
        from <= s@.len(),
    ensures
        r - from == first_non_ws(s@.skip(from as int)),
        from <= r <= s@.len(),
{
    let n = s.len();
    let mut i = from;
    loop
        invariant
            from <= i <= n,
            n == s@.len(),
            forall|j: int| from <= j < i ==> is_ws(s@[j]),
        decreases n - i,
    {
        if i == n || !is_ws_byte(s[i]) {
            proof {
                assert forall|j: int| 0 <= j < i - from implies is_ws(s@.skip(from as int)[j]) by {
                    assert(s@.skip(from as int)[j] == s@[from + j]);
                }
                if i < n {
                    assert(s@.skip(from as int)[i - from] == s@[i as int]);
                }
                lemma_first_non_ws_unique(s@.skip(from as int), i - from);
            }
            return i;
        }
        i = i + 1;
    }
}

/// Index of the first whitespace byte at or after `from`;
/// `s.len()` when the rest has none.
pub fn scan_token(s: &[u8], from: usize) -> (r: usize)
    requires
        from <= s@.len(),
    ensures
        r - from == first_ws(s@.skip(from as int)),
        from <= r <= s@.len(),
{
    let n = s.len();
    let mut i = from;
    loop
        invariant
            from <= i <= n,
            n == s@.len(),
            forall|j: int| from <= j < i ==> !is_ws(s@[j]),
        decreases n - i,
    {
        if i == n || is_ws_byte(s[i]) {
            proof {
                assert forall|j: int| 0 <= j < i - from implies !is_ws(s@.skip(from as int)[j]) by {
                    assert(s@.skip(from as int)[j] == s@[from + j]);
                }
                if i < n {
                    assert(s@.skip(from as int)[i - from] == s@[i as int]);
                }
                lemma_first_ws_unique(s@.skip(from as int), i - from);
            }
            return i;
        }
        i = i + 1;
    }
}

/// Executable whitespace test matching [`is_ws`].
pub fn is_ws_byte(b: u8) -> (r: bool)
    ensures
        r == is_ws(b),
{
    b == 32 || (9 <= b && b <= 13)
}

/// `p` is a prefix of `s`.
pub open spec fn starts_with(s: Seq<u8>, p: Seq<u8>) -> bool {
    p.len() <= s.len() && s.take(p.len() as int) == p
}

/// The bytes of an ASCII character sequence, one byte per character.
pub open spec fn ascii_bytes(s: Seq<char>) -> Seq<u8> {
    Seq::new(s.len(), |i: int| s[i] as u8)
}

/// Appends the bytes of an ASCII string.
pub fn push_ascii(out: &mut Vec<u8>, s: &str)
    requires
        s.is_ascii(),
    ensures
        final(out)@ == old(out)@ + ascii_bytes(s@),
{
    let n = s.unicode_len();
    let mut i: usize = 0;
    while i < n
        invariant
            i <= n,
            n == s@.len(),
            s.is_ascii(),
            out@ == old(out)@ + ascii_bytes(s@).take(i as int),
        decreases n - i,
    {
        let b = s.get_ascii(i);
        out.push(b);
        proof {
            assert(out@ =~= old(out)@ + ascii_bytes(s@).take(i + 1));
        }
        i = i + 1;
    }
    proof {
        assert(ascii_bytes(s@).take(n as int) =~= ascii_bytes(s@));
    }
}

/// Whether the slice starts with the bytes of an ASCII string.
pub fn starts_with_ascii(s: &[u8], pre: &str) -> (r: bool)
    requires
        pre.is_ascii(),
    ensures
        r == starts_with(s@, ascii_bytes(pre@)),
{
    let m = pre.unicode_len();
    if m > s.len() {
        return false;
    }
    let mut i: usize = 0;
    while i < m
        invariant
            i <= m,
            m == pre@.len(),
            m <= s@.len(),
            pre.is_ascii(),
            forall|j: int| 0 <= j < i ==> s@[j] == ascii_bytes(pre@)[j],
        decreases m - i,
    {
        if s[i] != pre.get_ascii(i) {
            proof {
                assert(s@.take(m as int)[i as int] == s@[i as int]);
            }
            return false;
        }
        i = i + 1;
    }
    proof {
        assert(s@.take(m as int) =~= ascii_bytes(pre@));
    }
    true
}

/// Whether the slice holds exactly the bytes of an ASCII string.
pub fn eq_ascii(s: &[u8], t: &str) -> (r: bool)
    requires
        t.is_ascii(),
    ensures
        r == (s@ == ascii_bytes(t@)),
{
    let m = t.unicode_len();
    if s.len() != m {
        return false;
    }
    let r = starts_with_ascii(s, t);
    proof {
        if r {
            assert(s@.take(m as int) =~= s@);
        } else {
            if s@ == ascii_bytes(t@) {
                assert(s@.take(m as int) =~= s@);
            }
        }
    }
    r
}

/// An ASCII decimal digit.
pub open spec fn is_digit(b: u8) -> bool {
    48 <= b && b <= 57
}

pub open spec fn all_digits(s: Seq<u8>) -> bool {
    forall|i: int| 0 <= i < s.len() ==> is_digit(#[trigger] s[i])
}

/// The number the decimal digit bytes `s` denote.
pub open spec fn digits_val(s: Seq<u8>) -> int
    decreases s.len(),
{
    if s.len() == 0 {
        0
    } else {
        digits_val(s.drop_last()) * 10 + (s.last() - 48)
    }
}

pub proof fn lemma_digits_val_nonneg(s: Seq<u8>)
    requires
        all_digits(s),
    ensures
        digits_val(s) >= 0,
    decreases s.len(),
{
    if s.len() > 0 {
        assert(all_digits(s.drop_last())) by {
            assert(forall|i: int|
                0 <= i < s.len() - 1 ==> #[trigger] s.drop_last()[i] == s[i]);
        }
        lemma_digits_val_nonneg(s.drop_last());
    }
}

/// Reading more digits never shrinks the value.
pub proof fn lemma_digits_val_prefix(s: Seq<u8>, k: int)
    requires
        all_digits(s),
        0 <= k <= s.len(),
    ensures
        digits_val(s.take(k)) <= digits_val(s),
    decreases s.len(),
{
    if k == s.len() {
        assert(s.take(k) =~= s);
    } else {
        let t = s.drop_last();
        assert(all_digits(t)) by {
            assert(forall|i: int| 0 <= i < s.len() - 1 ==> #[trigger] t[i] == s[i]);
        }
        lemma_digits_val_nonneg(t);
        assert(s.take(k) =~= t.take(k));
        lemma_digits_val_prefix(t, k);
    }
}

/// What `str::parse::<usize>` accepts of these bytes: an optional leading
/// plus sign, then one or more decimal digits, denoting a value in range.
pub open spec fn spec_parse_usize(s: Seq<u8>) -> Option<usize> {
    let d = if s.len() >= 1 && s[0] == 43 { s.skip(1) } else { s };
    if d.len() == 0 || !all_digits(d) {
        None
    } else if digits_val(d) > usize::MAX {
        None
    } else {
        Some(digits_val(d) as usize)
    }
}

/// Parses an unsigned decimal number, exactly as `str::parse::<usize>`
/// treats the same characters.
pub fn parse_usize(s: &[u8]) -> (r: Option<usize>)
    ensures
        r == spec_parse_usize(s@),
{
    let n = s.len();
    let start: usize = if n >= 1 && s[0] == 43 { 1 } else { 0 };
    let ghost d = if s@.len() >= 1 && s@[0] == 43 { s@.skip(1) } else { s@ };
    proof {
        assert(d =~= s@.subrange(start as int, n as int));
    }
    if n == start {
        return None;
    }
    let mut acc: usize = 0;
    let mut i = start;
    proof {
        assert(d.take(0) =~= Seq::<u8>::empty());
    }
    while i < n
        invariant
            start <= i <= n,
            n == s@.len(),
            d == (if s@.len() >= 1 && s@[0] == 43 { s@.skip(1) } else { s@ }),
            d == s@.subrange(start as int, n as int),
            d.len() == n - start,
            forall|j: int| 0 <= j < i - start ==> is_digit(#[trigger] d[j]),
            acc == digits_val(d.take(i - start)),
        decreases n - i,
    {
        let b = s[i];
        proof {
            assert(d[i - start] == s@[i as int]);
        }
        if b < 48 || b > 57 {
            proof {
                assert(!is_digit(d[i - start]));
                assert(!all_digits(d));
            }
            return None;
        }
        let ghost pre = d.take(i - start);
        let ghost pre1 = d.take(i + 1 - start);
        proof {
            assert(pre1.drop_last() =~= pre);
            assert(pre1.last() == s@[i as int]);
        }
        let acc10 = match acc.checked_mul(10) {
            Some(m) => m,
            None => {
                proof {
                    if all_digits(d) {
                        lemma_digits_val_prefix(d, i + 1 - start);
                    }
                }
                return None;
            },
        };
        let next = match acc10.checked_add((b - 48) as usize) {
            Some(v) => v,
            None => {
                proof {
                    if all_digits(d) {
                        lemma_digits_val_prefix(d, i + 1 - start);
                    }
                }
                return None;
            },
        };
        acc = next;
        i = i + 1;
    }
    proof {
        assert(d.take(n - start) =~= d);
    }
    Some(acc)
}

/// Character-for-character equality of two strings.
pub fn str_eq(a: &str, b: &str) -> (r: bool)
    ensures
        r == (a@ == b@),
{
    let n = a.unicode_len();
    if n != b.unicode_len() {
        return false;
    }
    let mut i: usize = 0;
    while i < n
        invariant
            i <= n,
            n == a@.len(),
            n == b@.len(),
            forall|j: int| 0 <= j < i ==> a@[j] == b@[j],
        decreases n - i,
    {
        if a.get_char(i) != b.get_char(i) {
            return false;
        }
        i = i + 1;
    }
    proof {
        assert(a@ =~= b@);
    }
    true
}

/// An ASCII decimal digit, as a character.
pub open spec fn is_digit_char(c: char) -> bool {
    '0' <= c && c <= '9'
}

pub open spec fn all_digit_chars(s: Seq<char>) -> bool {
    forall|i: int| 0 <= i < s.len() ==> is_digit_char(#[trigger] s[i])
}

/// The number the decimal digit characters `s` denote.
pub open spec fn chars_val(s: Seq<char>) -> int
    decreases s.len(),
{
    if s.len() == 0 {
        0
    } else {
        chars_val(s.drop_last()) * 10 + (s.last() as int - 48)
    }
}

pub proof fn lemma_chars_val_nonneg(s: Seq<char>)
    requires
        all_digit_chars(s),
    ensures
        chars_val(s) >= 0,
    decreases s.len(),
{
    if s.len() > 0 {
        assert(all_digit_chars(s.drop_last())) by {
            assert(forall|i: int|
                0 <= i < s.len() - 1 ==> #[trigger] s.drop_last()[i] == s[i]);
        }
        lemma_chars_val_nonneg(s.drop_last());
    }
}

pub proof fn lemma_chars_val_prefix(s: Seq<char>, k: int)
    requires
        all_digit_chars(s),
        0 <= k <= s.len(),
    ensures
        chars_val(s.take(k)) <= chars_val(s),
    decreases s.len(),
{
    if k == s.len() {
        assert(s.take(k) =~= s);
    } else {
        let t = s.drop_last();
        assert(all_digit_chars(t)) by {
            assert(forall|i: int| 0 <= i < s.len() - 1 ==> #[trigger] t[i] == s[i]);
        }
        lemma_chars_val_nonneg(t);
        assert(s.take(k) =~= t.take(k));
        lemma_chars_val_prefix(t, k);
    }
}

/// What `str::parse::<usize>` accepts: an optional leading plus sign,
/// then one or more decimal digits, denoting a value in range.
pub open spec fn spec_parse_usize_str(s: Seq<char>) -> Option<usize> {
    let d = if s.len() >= 1 && s[0] == '+' { s.skip(1) } else { s };
    if d.len() == 0 || !all_digit_chars(d) {
        Option::None
    } else if chars_val(d) > usize::MAX {
        Option::None
    } else {
        Option::Some(chars_val(d) as usize)
    }
}

/// Parses an unsigned decimal number from a string, exactly as
/// `str::parse::<usize>` does.
pub fn parse_usize_str(s: &str) -> (r: Option<usize>)
    ensures
        r == spec_parse_usize_str(s@),
{
    let n = s.unicode_len();
    let start: usize = if n >= 1 && s.get_char(0) == '+' { 1 } else { 0 };
    let ghost d = if s@.len() >= 1 && s@[0] == '+' { s@.skip(1) } else { s@ };
    proof {
        assert(d =~= s@.subrange(start as int, n as int));
    }
    if n == start {
        return Option::None;
    }
    let mut acc: usize = 0;
    let mut i = start;
    proof {
        assert(d.take(0) =~= Seq::<char>::empty());
    }
    while i < n
        invariant
            start <= i <= n,
            n == s@.len(),
            d == (if s@.len() >= 1 && s@[0] == '+' { s@.skip(1) } else { s@ }),
            d == s@.subrange(start as int, n as int),
            d.len() == n - start,
            forall|j: int| 0 <= j < i - start ==> is_digit_char(#[trigger] d[j]),
            acc == chars_val(d.take(i - start)),
        decreases n - i,
    {
        let c = s.get_char(i);
        proof {
            assert(d[i - start] == s@[i as int]);
        }
        if c < '0' || c > '9' {
            proof {
                assert(!is_digit_char(d[i - start]));
                assert(!all_digit_chars(d));
            }
            return Option::None;
        }
        let ghost pre = d.take(i - start);
        let ghost pre1 = d.take(i + 1 - start);
        proof {
            assert(pre1.drop_last() =~= pre);
            assert(pre1.last() == s@[i as int]);
        }
        let digit: usize = ((c as u32) - 48) as usize;
        let acc10 = match acc.checked_mul(10) {
            Some(m) => m,
            None => {
                proof {
                    if all_digit_chars(d) {
                        lemma_chars_val_prefix(d, i + 1 - start);
                    }
                }
                return Option::None;
            },
        };
        let next = match acc10.checked_add(digit) {
            Some(v) => v,
            None => {
                proof {
                    if all_digit_chars(d) {
                        lemma_chars_val_prefix(d, i + 1 - start);
                    }
                }
                return Option::None;
            },
        };
        acc = next;
        i = i + 1;
    }
    proof {
        assert(d.take(n - start) =~= d);
    }
    Option::Some(acc)
}

/// The decimal digit bytes of a non-negative number, most significant
/// first, with no leading zero except for the number zero itself.
pub open spec fn dec_bytes(n: int) -> Seq<u8>
    decreases n,
{
    if n < 10 {
        seq![(48 + if n >= 0 { n } else { 0 }) as u8]
    } else {
        dec_bytes(n / 10) + seq![(48 + n % 10) as u8]
    }
}

/// Appends the decimal digits of `n`.
pub fn push_decimal(out: &mut Vec<u8>, n: usize)
    ensures
        final(out)@ == old(out)@ + dec_bytes(n as int),
    decreases n,
{
    if n >= 10 {
        push_decimal(out, n / 10);
    }
    let d: u8 = 48 + (n % 10) as u8;
    out.push(d);
    proof {
        if n < 10 {
            assert(out@ =~= old(out)@ + dec_bytes(n as int));
        } else {
            assert(out@ =~= old(out)@ + (dec_bytes(n as int / 10) + seq![d]));
        }
    }
}

} // verus!
