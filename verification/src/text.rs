//! Operations on the characters of strings.
//!
//! Every function here is stated over the `Seq<char>` view of its arguments,
//! so that the package model above it can reason about paths, identifiers
//! and property lists without trusting any string routine.

use vstd::prelude::*;
use vstd::string::*;

verus! {

/// `String::push` appends exactly one character.
pub assume_specification[ String::push ](s: &mut String, c: char)
    ensures
        final(s)@ == old(s)@.push(c),
;

/// The characters of `s`, in order.
pub fn chars_of(s: &str) -> (v: Vec<char>)
    ensures
        v@ == s@,
{
    let mut v: Vec<char> = Vec::new();
    for c in it: s.chars()
        invariant
            it.seq() == s@,
            v@ == it.seq().take(it.index()),
    {
        v.push(c);
    }
    v
}

/// The string made of `v[from..to]`.
pub(crate) fn string_of_range(v: &Vec<char>, from: usize, to: usize) -> (s: String)
    requires
        from <= to <= v.len(),
    ensures
        s@ == v@.subrange(from as int, to as int),
{
    let mut s = String::new();
    let mut i: usize = from;
    while i < to
        invariant
            from <= i <= to <= v.len(),
            s@ == v@.subrange(from as int, i as int),
        decreases to - i,
    {
        s.push(v[i]);
        i += 1;
        assert(v@.subrange(from as int, i as int) =~= v@.subrange(from as int, i - 1).push(
            v@[i - 1],
        ));
    }
    s
}

/// An owned copy of `s`.
pub fn owned(s: &str) -> (r: String)
    ensures
        r@ == s@,
{
    s.to_owned()
}

/// Whether two string slices hold the same characters.
pub fn str_eq(a: &str, b: &str) -> (r: bool)
    ensures
        r == (a@ == b@),
{
    let x = a.to_owned();
    let y = b.to_owned();
    x == y
}

/// `a` followed by `b`.
pub fn concat2(a: &str, b: &str) -> (r: String)
    ensures
        r@ == a@ + b@,
{
    let mut r = a.to_owned();
    r.append(b);
    r
}

/// `a`, `b` and `c` in a row.
pub fn concat3(a: &str, b: &str, c: &str) -> (r: String)
    ensures
        r@ == a@ + b@ + c@,
{
    let mut r = a.to_owned();
    r.append(b);
    r.append(c);
    r
}

/// Whether `v[at..]` begins with `p`.
pub(crate) fn matches_at(v: &Vec<char>, at: usize, p: &Vec<char>) -> (r: bool)
    requires
        at <= v.len(),
    ensures
        r == p@.is_prefix_of(v@.skip(at as int)),
{
    if p.len() > v.len() - at {
        return false;
    }
    let mut i: usize = 0;
    while i < p.len()
        invariant
            at <= v.len(),
            p.len() <= v.len() - at,
            i <= p.len(),
            forall|j: int| 0 <= j < i ==> p@[j] == v@[at + j],
        decreases p.len() - i,
    {
        if p[i] != v[at + i] {
            assert(v@.skip(at as int)[i as int] == v@[at + i]);
            return false;
        }
        i += 1;
    }
    assert(p@ =~= v@.skip(at as int).subrange(0, p@.len() as int));
    true
}

/// Whether `s` begins with `prefix`.
pub fn starts_with(s: &str, prefix: &str) -> (r: bool)
    ensures
        r == prefix@.is_prefix_of(s@),
{
    let v = chars_of(s);
    let p = chars_of(prefix);
    assert(v@.skip(0) =~= v@);
    matches_at(&v, 0, &p)
}

/// `needle` occurs in `s` at some position.
pub open spec fn occurs_in(needle: Seq<char>, s: Seq<char>) -> bool {
    exists|i: int| 0 <= i <= s.len() && #[trigger] needle.is_prefix_of(s.skip(i))
}

/// Whether `needle` occurs somewhere in `s`.
pub fn contains_text(s: &str, needle: &str) -> (r: bool)
    ensures
        r == occurs_in(needle@, s@),
{
    let v = chars_of(s);
    let p = chars_of(needle);
    let mut i: usize = 0;
    while i < v.len()
        invariant
            i <= v.len(),
            v@ == s@,
            p@ == needle@,
            forall|j: int| 0 <= j < i ==> !#[trigger] p@.is_prefix_of(v@.skip(j)),
        decreases v.len() - i,
    {
        if matches_at(&v, i, &p) {
            return true;
        }
        i += 1;
    }
    matches_at(&v, i, &p)
}

/// The rest of `s` after its first `n` characters.
pub(crate) fn skip_chars(s: &str, n: usize) -> (r: String)
    requires
        n <= s@.len(),
    ensures
        r@ == s@.skip(n as int),
{
    let v = chars_of(s);
    string_of_range(&v, n, v.len())
}

/// What separates the pieces of a string.
pub enum Delim {
    /// One given character.
    Char(char),
    /// Any white-space character.
    Whitespace,
}

/// The characters with the Unicode `White_Space` property.
pub open spec fn is_space(c: char) -> bool {
    let n = c as u32;
    (0x09 <= n <= 0x0D) || n == 0x20 || n == 0x85 || n == 0xA0 || n == 0x1680 || (0x2000 <= n
        <= 0x200A) || n == 0x2028 || n == 0x2029 || n == 0x202F || n == 0x205F || n == 0x3000
}

/// Whether `c` is white space.
pub fn is_whitespace(c: char) -> (r: bool)
    ensures
        r == is_space(c),
{
    let n: u32 = c as u32;
    (0x09 <= n && n <= 0x0D) || n == 0x20 || n == 0x85 || n == 0xA0 || n == 0x1680 || (0x2000 <= n
        && n <= 0x200A) || n == 0x2028 || n == 0x2029 || n == 0x202F || n == 0x205F || n == 0x3000
}

impl Delim {
    /// Whether `c` separates two pieces.
    pub open spec fn cuts(self, c: char) -> bool {
        match self {
            Delim::Char(d) => c == d,
            Delim::Whitespace => is_space(c),
        }
    }

    /// Whether `c` separates two pieces.
    pub fn is_cut(&self, c: char) -> (r: bool)
        ensures
            r == self.cuts(c),
    {
        match self {
            Delim::Char(d) => c == *d,
            Delim::Whitespace => is_whitespace(c),
        }
    }
}

/// The pieces of `s` between separators, empty pieces included: one more
/// piece than there are separators.
pub open spec fn pieces(s: Seq<char>, d: Delim) -> Seq<Seq<char>>
    decreases s.len(),
{
    if s.len() == 0 {
        seq![Seq::<char>::empty()]
    } else {
        let before = pieces(s.drop_last(), d);
        if d.cuts(s.last()) {
            before.push(Seq::<char>::empty())
        } else {
            before.drop_last().push(before.last().push(s.last()))
        }
    }
}

/// There is always at least one piece.
pub proof fn lemma_pieces_nonempty(s: Seq<char>, d: Delim)
    ensures
        pieces(s, d).len() >= 1,
    decreases s.len(),
{
    if s.len() > 0 {
        lemma_pieces_nonempty(s.drop_last(), d);
    }
}

/// No piece holds a separator.
pub proof fn lemma_pieces_hold_no_cut(s: Seq<char>, d: Delim)
    ensures
        forall|i: int, j: int|
            0 <= i < pieces(s, d).len() && 0 <= j < pieces(s, d)[i].len() ==> !d.cuts(
                #[trigger] pieces(s, d)[i][j],
            ),
    decreases s.len(),
{
    if s.len() > 0 {
        lemma_pieces_hold_no_cut(s.drop_last(), d);
        lemma_pieces_nonempty(s.drop_last(), d);
    }
}

/// Every word is a piece that holds at least one character, and none of
/// its characters is a separator.
pub proof fn lemma_words(s: Seq<char>, d: Delim)
    ensures
        forall|i: int|
            0 <= i < words(s, d).len() ==> (#[trigger] words(s, d)[i]).len() > 0 && pieces(
                s,
                d,
            ).contains(words(s, d)[i]),
        forall|i: int, j: int|
            0 <= i < words(s, d).len() && 0 <= j < words(s, d)[i].len() ==> !d.cuts(
                #[trigger] words(s, d)[i][j],
            ),
{
    let keep = |p: Seq<char>| p.len() > 0;
    let all = pieces(s, d);
    let kept = words(s, d);
    lemma_pieces_hold_no_cut(s, d);
    assert forall|i: int| 0 <= i < kept.len() implies (#[trigger] kept[i]).len() > 0
        && all.contains(kept[i]) by {
        all.lemma_filter_pred(keep, i);
        assert(kept.contains(kept[i]));
        all.lemma_filter_contains_rev(keep, kept[i]);
    }
    assert forall|i: int, j: int| 0 <= i < kept.len() && 0 <= j < kept[i].len() implies !d.cuts(
        #[trigger] kept[i][j],
    ) by {
        assert(all.contains(kept[i]));
        let k = choose|k: int| 0 <= k < all.len() && all[k] == kept[i];
        assert(!d.cuts(all[k][j]));
    }
}

/// What is joined begins with the first part, and where there are more
/// parts the separator follows.
pub proof fn lemma_joined_starts(parts: Seq<Seq<char>>, sep: Seq<char>)
    requires
        parts.len() > 0,
    ensures
        parts[0].is_prefix_of(joined(parts, sep)),
        parts.len() > 1 ==> (parts[0] + sep).is_prefix_of(joined(parts, sep)),
    decreases parts.len(),
{
    if parts.len() == 1 {
        assert(parts[0] =~= joined(parts, sep).subrange(0, parts[0].len() as int));
    } else {
        let front = parts.drop_last();
        lemma_joined_starts(front, sep);
        let whole = joined(front, sep) + sep + parts.last();
        if front.len() == 1 {
            assert(joined(front, sep) == parts[0]);
            assert((parts[0] + sep) =~= whole.subrange(0, (parts[0] + sep).len() as int));
        } else {
            let head = parts[0] + sep;
            assert(head =~= joined(front, sep).subrange(0, head.len() as int));
            assert(head =~= whole.subrange(0, head.len() as int));
        }
        assert(parts[0] =~= whole.subrange(0, parts[0].len() as int));
    }
}

/// The pieces of `s` that hold at least one character.
pub open spec fn words(s: Seq<char>, d: Delim) -> Seq<Seq<char>> {
    pieces(s, d).filter(|p: Seq<char>| p.len() > 0)
}

/// Splits `s` at every separator.
pub fn split(s: &str, d: &Delim) -> (r: Vec<String>)
    ensures
        r.deep_view() == pieces(s@, *d),
        r.len() >= 1,
{
    let v = chars_of(s);
    let mut done: Vec<String> = Vec::new();
    let mut start: usize = 0;
    let mut i: usize = 0;
    proof {
        assert(v@.take(0) =~= Seq::<char>::empty());
        assert(done.deep_view() =~= Seq::<Seq<char>>::empty());
        assert(seq![Seq::<char>::empty()] =~= Seq::<Seq<char>>::empty().push(
            v@.subrange(0, 0),
        ));
    }
    while i < v.len()
        invariant
            start <= i <= v.len(),
            v@ == s@,
            pieces(v@.take(i as int), *d) == done.deep_view().push(
                v@.subrange(start as int, i as int),
            ),
        decreases v.len() - i,
    {
        let ghost before = pieces(v@.take(i as int), *d);
        let ghost old_done = done.deep_view();
        proof {
            assert(v@.take(i + 1).drop_last() =~= v@.take(i as int));
            assert(v@.take(i + 1).last() == v@[i as int]);
            assert(before.drop_last() =~= old_done);
            assert(before.last() == v@.subrange(start as int, i as int));
        }
        if d.is_cut(v[i]) {
            let piece = string_of_range(&v, start, i);
            done.push(piece);
            start = i + 1;
            proof {
                assert(done.deep_view() =~= old_done.push(piece@));
                assert(v@.subrange(start as int, i + 1) =~= Seq::<char>::empty());
            }
        } else {
            proof {
                assert(v@.subrange(start as int, i + 1) =~= v@.subrange(
                    start as int,
                    i as int,
                ).push(v@[i as int]));
            }
        }
        i += 1;
    }
    let ghost old_done = done.deep_view();
    let piece = string_of_range(&v, start, i);
    done.push(piece);
    proof {
        assert(v@.take(i as int) =~= v@);
        assert(done.deep_view() =~= old_done.push(piece@));
    }
    done
}

/// The pieces of `s` that are not empty.
pub fn split_words(s: &str, d: &Delim) -> (r: Vec<String>)
    ensures
        r.deep_view() == words(s@, *d),
{
    let all = split(s, d);
    let mut kept: Vec<String> = Vec::new();
    let ghost keep = |p: Seq<char>| p.len() > 0;
    let mut i: usize = 0;
    proof {
        assert(all.deep_view().take(0) =~= Seq::<Seq<char>>::empty());
        assert(kept.deep_view() =~= Seq::<Seq<char>>::empty());
    }
    while i < all.len()
        invariant
            i <= all.len(),
            keep == |p: Seq<char>| p.len() > 0,
            kept.deep_view() == all.deep_view().take(i as int).filter(keep),
        decreases all.len() - i,
    {
        let ghost old_kept = kept.deep_view();
        proof {
            assert(all.deep_view().take(i + 1) =~= all.deep_view().take(i as int).push(
                all[i as int]@,
            ));
            all.deep_view().take(i as int).lemma_filter_push(all[i as int]@, keep);
        }
        if all[i].as_str().unicode_len() > 0 {
            let piece = all[i].clone();
            kept.push(piece);
            proof {
                assert(kept.deep_view() =~= old_kept.push(all[i as int]@));
            }
        }
        i += 1;
    }
    proof {
        assert(all.deep_view().take(i as int) =~= all.deep_view());
    }
    kept
}

/// The parts in a row, with `sep` between each two.
pub open spec fn joined(parts: Seq<Seq<char>>, sep: Seq<char>) -> Seq<char>
    decreases parts.len(),
{
    if parts.len() == 0 {
        Seq::<char>::empty()
    } else if parts.len() == 1 {
        parts[0]
    } else {
        joined(parts.drop_last(), sep) + sep + parts.last()
    }
}

/// Joins the first `n` parts with `sep` between each two.
pub(crate) fn join_first(parts: &Vec<String>, n: usize, sep: &str) -> (r: String)
    requires
        n <= parts.len(),
    ensures
        r@ == joined(parts.deep_view().take(n as int), sep@),
{
    let mut r = String::new();
    let mut i: usize = 0;
    while i < n
        invariant
            i <= n <= parts.len(),
            r@ == joined(parts.deep_view().take(i as int), sep@),
        decreases n - i,
    {
        proof {
            let next = parts.deep_view().take(i + 1);
            assert(next.drop_last() =~= parts.deep_view().take(i as int));
            assert(next.last() == parts[i as int]@);
            if i == 0 {
                assert(next[0] == parts[0]@);
                assert(Seq::<char>::empty() + parts[0]@ =~= parts[0]@);
            }
        }
        if i > 0 {
            r.append(sep);
        }
        r.append(parts[i].as_str());
        i += 1;
    }
    r
}

/// Joins all parts with `sep` between each two.
pub fn join(parts: &Vec<String>, sep: &str) -> (r: String)
    ensures
        r@ == joined(parts.deep_view(), sep@),
{
    proof {
        assert(parts.deep_view().take(parts.len() as int) =~= parts.deep_view());
    }
    join_first(parts, parts.len(), sep)
}

/// `s` without the white space at its start.
pub open spec fn trim_start(s: Seq<char>) -> Seq<char>
    decreases s.len(),
{
    if s.len() > 0 && is_space(s[0]) {
        trim_start(s.drop_first())
    } else {
        s
    }
}

/// `s` without the white space at its end.
pub open spec fn trim_end(s: Seq<char>) -> Seq<char>
    decreases s.len(),
{
    if s.len() > 0 && is_space(s.last()) {
        trim_end(s.drop_last())
    } else {
        s
    }
}

/// `s` without the white space at either end.
pub open spec fn trimmed(s: Seq<char>) -> Seq<char> {
    trim_end(trim_start(s))
}

/// Removes the white space at both ends of `s`.
pub fn trim(s: &str) -> (r: String)
    ensures
        r@ == trimmed(s@),
{
    let v = chars_of(s);
    let mut a: usize = 0;
    proof {
        assert(v@.skip(0) =~= v@);
    }
    while a < v.len() && is_whitespace(v[a])
        invariant
            a <= v.len(),
            trim_start(v@) == trim_start(v@.skip(a as int)),
        decreases v.len() - a,
    {
        proof {
            assert(v@.skip(a as int).drop_first() =~= v@.skip(a + 1));
        }
        a += 1;
    }
    let mut b: usize = v.len();
    proof {
        assert(v@.skip(a as int) =~= v@.subrange(a as int, b as int));
    }
    while b > a && is_whitespace(v[b - 1])
        invariant
            a <= b <= v.len(),
            trim_end(v@.skip(a as int)) == trim_end(v@.subrange(a as int, b as int)),
        decreases b - a,
    {
        proof {
            assert(v@.subrange(a as int, b as int).drop_last() =~= v@.subrange(
                a as int,
                b - 1,
            ));
        }
        b -= 1;
    }
    string_of_range(&v, a, b)
}

/// The words of `s`, each separated from the next by one space.
pub open spec fn normalized(s: Seq<char>) -> Seq<char> {
    joined(words(s, Delim::Whitespace), seq![' '])
}

/// Replaces every run of white space in `s` by one space and drops the white
/// space at both ends.
pub fn normalize_space(s: &str) -> (r: String)
    ensures
        r@ == normalized(s@),
{
    let parts = split_words(s, &Delim::Whitespace);
    proof {
        reveal_strlit(" ");
        assert(" "@ =~= seq![' ']);
    }
    join(&parts, " ")
}

/// Replacing every run of white space by one space.
pub trait NormalizeWhitespace {
    /// This text with every run of white space replaced by one space, and
    /// without white space at its ends.
    fn normalize_whitespace(&self) -> String;
}

impl NormalizeWhitespace for &str {
    fn normalize_whitespace(&self) -> (r: String)
        ensures
            r@ == normalized(self@),
    {
        normalize_space(self)
    }
}

impl NormalizeWhitespace for String {
    fn normalize_whitespace(&self) -> (r: String)
        ensures
            r@ == normalized(self@),
    {
        normalize_space(self.as_str())
    }
}

/// The decimal digit for `d`.
pub open spec fn digit_char(d: nat) -> char {
    (('0' as u32) + (d % 10) as u32) as char
}

/// `n` written in decimal, without leading zeros.
pub open spec fn decimal(n: nat) -> Seq<char>
    decreases n,
{
    if n < 10 {
        seq![digit_char(n)]
    } else {
        decimal(n / 10).push(digit_char(n % 10))
    }
}

/// Appends `n` in decimal to `s`.
pub fn push_decimal(s: &mut String, n: usize)
    ensures
        final(s)@ == old(s)@ + decimal(n as nat),
    decreases n,
{
    if n >= 10 {
        push_decimal(s, n / 10);
    }
    let d: u8 = (n % 10) as u8;
    let c: char = (48u8 + d) as char;
    assert(c == digit_char((n % 10) as nat));
    s.push(c);
    proof {
        if n >= 10 {
            assert(old(s)@ + decimal((n / 10) as nat).push(c) =~= (old(s)@ + decimal(
                (n / 10) as nat,
            )).push(c));
        } else {
            assert(old(s)@ + seq![c] =~= old(s)@.push(c));
        }
    }
}

/// `n` written in decimal.
pub fn format_decimal(n: usize) -> (r: String)
    ensures
        r@ == decimal(n as nat),
{
    let mut r = String::new();
    push_decimal(&mut r, n);
    assert(Seq::<char>::empty() + decimal(n as nat) =~= decimal(n as nat));
    r
}

/// The value of one decimal digit.
pub open spec fn digit_value(c: char) -> Option<nat> {
    if '0' <= c <= '9' {
        Some(((c as u32) - ('0' as u32)) as nat)
    } else {
        None
    }
}

/// The value of a run of decimal digits; the empty run stands for zero.
pub open spec fn digits_value(s: Seq<char>) -> Option<nat>
    decreases s.len(),
{
    if s.len() == 0 {
        Some(0)
    } else {
        match (digits_value(s.drop_last()), digit_value(s.last())) {
            (Some(high), Some(low)) => Some(high * 10 + low),
            _ => None,
        }
    }
}

/// The number that `s` spells: decimal digits after an optional `+`, at least
/// one digit, and a value that fits in `usize`.
pub open spec fn parsed_usize(s: Seq<char>) -> Option<usize> {
    let body = if s.len() > 0 && s[0] == '+' {
        s.drop_first()
    } else {
        s
    };
    if body.len() == 0 {
        None
    } else {
        match digits_value(body) {
            Some(n) => if n <= usize::MAX {
                Some(n as usize)
            } else {
                None
            },
            None => None,
        }
    }
}

/// A run of digits is worth at least as much as each of its prefixes.
pub proof fn lemma_digits_value_grows(s: Seq<char>, k: int)
    requires
        0 <= k <= s.len(),
        digits_value(s) is Some,
    ensures
        digits_value(s.take(k)) is Some,
        digits_value(s.take(k))->0 <= digits_value(s)->0,
    decreases s.len(),
{
    if k == s.len() {
        assert(s.take(k) =~= s);
    } else {
        lemma_digits_value_grows(s.drop_last(), k);
        assert(s.drop_last().take(k) =~= s.take(k));
    }
}

/// Reads an unsigned decimal number.
pub fn parse_usize(s: &str) -> (r: Option<usize>)
    ensures
        r == parsed_usize(s@),
{
    let v = chars_of(s);
    let from: usize = if v.len() > 0 && v[0] == '+' {
        1
    } else {
        0
    };
    if from == v.len() {
        return None;
    }
    let ghost body = v@.skip(from as int);
    proof {
        if from == 1 {
            assert(body =~= v@.drop_first());
        } else {
            assert(body =~= v@);
        }
        assert(body.take(0) =~= Seq::<char>::empty());
    }
    let mut acc: usize = 0;
    let mut i: usize = from;
    while i < v.len()
        invariant
            from <= i <= v.len(),
            from < v.len(),
            v@ == s@,
            body == v@.skip(from as int),
            body == if s@.len() > 0 && s@[0] == '+' {
                s@.drop_first()
            } else {
                s@
            },
            digits_value(body.take(i - from)) == Some(acc as nat),
        decreases v.len() - i,
    {
        let c = v[i];
        proof {
            assert(body.take(i + 1 - from).drop_last() =~= body.take(i - from));
            assert(body.take(i + 1 - from).last() == c);
        }
        if c < '0' || c > '9' {
            proof {
                assert(digits_value(body.take(i + 1 - from)) is None);
                if digits_value(body) is Some {
                    lemma_digits_value_grows(body, i + 1 - from);
                }
            }
            return None;
        }
        let d: usize = ((c as u32) - 48u32) as usize;
        if acc > (usize::MAX - d) / 10 {
            proof {
                assert(acc * 10 + d > usize::MAX) by (nonlinear_arith)
                    requires
                        acc > (usize::MAX - d) / 10,
                        d <= usize::MAX,
                ;
                if digits_value(body) is Some {
                    lemma_digits_value_grows(body, i + 1 - from);
                }
            }
            return None;
        }
        assert(acc * 10 + d <= usize::MAX) by (nonlinear_arith)
            requires
                acc <= (usize::MAX - d) / 10,
                d <= usize::MAX,
        ;
        acc = acc * 10 + d;
        i += 1;
    }
    proof {
        assert(body.take(i - from) =~= body);
    }
    Some(acc)
}

} // verus!
