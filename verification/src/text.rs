//! Character-level text handling shared by the parsers of this crate:
//! whitespace trimming and splitting, line splitting, prefixes and
//! substrings, and unsigned decimal parsing.
//!
//! Every function works on sequences of Unicode scalar values, and its
//! contract is stated over `Seq<char>`.
use vstd::prelude::*;
use vstd::std_specs::iter::IteratorSpec;

verus! {

// ---------------------------------------------------------------------------
// Conversions between strings and character vectors
// ---------------------------------------------------------------------------

/// The characters of a string slice, in order.
pub fn chars_of(s: &str) -> (r: Vec<char>)
    ensures
        r@ == s@,
{
    let mut out: Vec<char> = Vec::new();
    let mut it = s.chars();
    let ghost all = s@;
    loop
        invariant
            IteratorSpec::remaining(&it) == all.skip(out@.len() as int),
            out@ == all.take(out@.len() as int),
            out@.len() <= all.len(),
        ensures
            out@ == all,
        decreases all.len() - out@.len(),
    {
        match it.next() {
            Some(c) => {
                out.push(c);
            },
            None => {
                break ;
            },
        }
    }
    out
}

/// `String: FromIterator<char>` (std): collects the characters of `cs`, in
/// order, into a new string.
#[verifier::external_body]
pub(crate) fn string_from_chars(cs: &[char]) -> (r: String)
    ensures
        r@ == cs@,
{
    cs.iter().collect()
}

/// Copies the characters `cs[from..to]` into a new vector.
pub fn copy_range(cs: &[char], from: usize, to: usize) -> (r: Vec<char>)
    requires
        from <= to <= cs@.len(),
    ensures
        r@ == cs@.subrange(from as int, to as int),
{
    let mut out: Vec<char> = Vec::new();
    let mut k = from;
    while k < to
        invariant
            from <= k <= to <= cs@.len(),
            out@ == cs@.subrange(from as int, k as int),
        decreases to - k,
    {
        out.push(cs[k]);
        k = k + 1;
    }
    out
}

/// Whether two character sequences are equal.
pub fn chars_equal(a: &[char], b: &[char]) -> (r: bool)
    ensures
        r == (a@ == b@),
{
    if a.len() != b.len() {
        return false;
    }
    let mut k: usize = 0;
    while k < a.len()
        invariant
            a@.len() == b@.len(),
            k <= a@.len(),
            forall|i: int| 0 <= i < k ==> a@[i] == b@[i],
        decreases a@.len() - k,
    {
        if a[k] != b[k] {
            return false;
        }
        k = k + 1;
    }
    assert(a@ =~= b@);
    true
}

/// Whether a string equals a given string slice, character by character.
pub fn str_equal(a: &str, b: &str) -> (r: bool)
    ensures
        r == (a@ == b@),
{
    let ca = chars_of(a);
    let cb = chars_of(b);
    chars_equal(ca.as_slice(), cb.as_slice())
}

// ---------------------------------------------------------------------------
// Whitespace
// ---------------------------------------------------------------------------

/// The Unicode `White_Space` property, which `char::is_whitespace` tests.
pub open spec fn is_space(c: char) -> bool {
    let v = c as u32;
    (0x9 <= v <= 0xd) || v == 0x20 || v == 0x85 || v == 0xa0 || v == 0x1680 || (0x2000 <= v
        <= 0x200a) || v == 0x2028 || v == 0x2029 || v == 0x202f || v == 0x205f || v == 0x3000
}

/// `char::is_whitespace`.
pub fn is_space_char(c: char) -> (r: bool)
    ensures
        r == is_space(c),
{
    let v = c as u32;
    (0x9 <= v && v <= 0xd) || v == 0x20 || v == 0x85 || v == 0xa0 || v == 0x1680 || (0x2000 <= v
        && v <= 0x200a) || v == 0x2028 || v == 0x2029 || v == 0x202f || v == 0x205f || v == 0x3000
}

/// `s` without its leading whitespace.
pub open spec fn trim_start(s: Seq<char>) -> Seq<char>
    decreases s.len(),
{
    if s.len() > 0 && is_space(s[0]) {
        trim_start(s.drop_first())
    } else {
        s
    }
}

/// `s` without its trailing whitespace.
pub open spec fn trim_end(s: Seq<char>) -> Seq<char>
    decreases s.len(),
{
    if s.len() > 0 && is_space(s.last()) {
        trim_end(s.drop_last())
    } else {
        s
    }
}

/// `str::trim`: `s` without leading and trailing whitespace.
pub open spec fn trim(s: Seq<char>) -> Seq<char> {
    trim_end(trim_start(s))
}

proof fn lemma_trim_start_skip(s: Seq<char>, i: int)
    requires
        0 <= i <= s.len(),
        forall|k: int| 0 <= k < i ==> is_space(#[trigger] s[k]),
        i == s.len() || !is_space(s[i]),
    ensures
        trim_start(s) == s.skip(i),
    decreases i,
{
    if i == 0 {
        assert(s.skip(0) =~= s);
    } else {
        assert(is_space(s[0]));
        let t = s.drop_first();
        assert forall|k: int| 0 <= k < i - 1 implies is_space(#[trigger] t[k]) by {
            assert(t[k] == s[k + 1]);
        }
        if i < s.len() {
            assert(t[i - 1] == s[i]);
        }
        lemma_trim_start_skip(t, i - 1);
        assert(t.skip(i - 1) =~= s.skip(i));
    }
}

proof fn lemma_trim_end_take(s: Seq<char>, j: int)
    requires
        0 <= j <= s.len(),
        forall|k: int| j <= k < s.len() ==> is_space(#[trigger] s[k]),
        j == 0 || !is_space(s[j - 1]),
    ensures
        trim_end(s) == s.take(j),
    decreases s.len() - j,
{
    if j == s.len() {
        assert(s.take(j) =~= s);
        if s.len() > 0 {
            assert(s.last() == s[j - 1]);
        }
    } else {
        assert(is_space(s.last()));
        let t = s.drop_last();
        assert forall|k: int| j <= k < t.len() implies is_space(#[trigger] t[k]) by {
            assert(t[k] == s[k]);
        }
        if j > 0 {
            assert(t[j - 1] == s[j - 1]);
        }
        lemma_trim_end_take(t, j);
        assert(t.take(j) =~= s.take(j));
    }
}

/// `str::trim` on a character sequence.
pub fn trim_chars(cs: &[char]) -> (r: Vec<char>)
    ensures
        r@ == trim(cs@),
{
    let n = cs.len();
    let mut i: usize = 0;
    while i < n && is_space_char(cs[i])
        invariant
            n == cs@.len(),
            i <= n,
            forall|k: int| 0 <= k < i ==> is_space(#[trigger] cs@[k]),
        decreases n - i,
    {
        i = i + 1;
    }
    proof {
        lemma_trim_start_skip(cs@, i as int);
    }
    let ghost t = cs@.skip(i as int);
    let mut j: usize = n;
    while j > i && is_space_char(cs[j - 1])
        invariant
            n == cs@.len(),
            i <= j <= n,
            forall|k: int| j <= k < n ==> is_space(#[trigger] cs@[k]),
        decreases j,
    {
        j = j - 1;
    }
    proof {
        assert forall|k: int| j - i <= k < t.len() implies is_space(#[trigger] t[k]) by {
            assert(t[k] == cs@[k + i]);
        }
        if j > i {
            assert(t[j - i - 1] == cs@[j - 1]);
        }
        lemma_trim_end_take(t, j - i);
        assert(t.take(j - i) =~= cs@.subrange(i as int, j as int));
    }
    copy_range(cs, i, j)
}

/// `str::trim` on a string slice.
pub fn trim_str(s: &str) -> (r: Vec<char>)
    ensures
        r@ == trim(s@),
{
    let cs = chars_of(s);
    trim_chars(cs.as_slice())
}

// ---------------------------------------------------------------------------
// Prefixes and substrings
// ---------------------------------------------------------------------------

/// `str::starts_with` for a string prefix.
pub open spec fn has_prefix(s: Seq<char>, p: Seq<char>) -> bool {
    p.len() <= s.len() && s.take(p.len() as int) == p
}

/// `str::contains` for a string needle.
pub open spec fn has_substring(s: Seq<char>, p: Seq<char>) -> bool {
    exists|i: int| 0 <= i <= s.len() - p.len() && #[trigger] s.subrange(i, i + p.len()) == p
}

/// Whether `p` occurs in `s` at position `at`.
pub open spec fn occurs_at(s: Seq<char>, p: Seq<char>, at: int) -> bool {
    0 <= at && at + p.len() <= s.len() && forall|k: int|
        0 <= k < p.len() ==> s[at + k] == #[trigger] p[k]
}

fn matches_at(s: &[char], p: &[char], at: usize) -> (r: bool)
    requires
        at + p@.len() <= s@.len(),
    ensures
        r == occurs_at(s@, p@, at as int),
{
    let n = s.len();
    let mut k: usize = 0;
    while k < p.len()
        invariant
            n == s@.len(),
            at + p@.len() <= s@.len(),
            k <= p@.len(),
            forall|m: int| 0 <= m < k ==> s@[at + m] == #[trigger] p@[m],
        decreases p@.len() - k,
    {
        if s[at + k] != p[k] {
            return false;
        }
        k = k + 1;
    }
    true
}

proof fn lemma_occurs_at_subrange(s: Seq<char>, p: Seq<char>, at: int)
    requires
        0 <= at,
        at + p.len() <= s.len(),
    ensures
        occurs_at(s, p, at) == (s.subrange(at, at + p.len()) == p),
{
    if occurs_at(s, p, at) {
        assert(s.subrange(at, at + p.len()) =~= p);
    }
    if s.subrange(at, at + p.len()) == p {
        assert forall|k: int| 0 <= k < p.len() implies s[at + k] == #[trigger] p[k] by {
            assert(s.subrange(at, at + p.len())[k] == s[at + k]);
        }
    }
}

/// `str::starts_with` on character sequences.
pub fn starts_with_chars(s: &[char], p: &[char]) -> (r: bool)
    ensures
        r == has_prefix(s@, p@),
{
    if p.len() > s.len() {
        return false;
    }
    let r = matches_at(s, p, 0);
    proof {
        lemma_occurs_at_subrange(s@, p@, 0);
        assert(s@.subrange(0, p@.len() as int) =~= s@.take(p@.len() as int));
    }
    r
}

/// `str::contains` on character sequences (naive search).
pub fn contains_chars(s: &[char], p: &[char]) -> (r: bool)
    ensures
        r == has_substring(s@, p@),
{
    if p.len() > s.len() {
        return false;
    }
    if p.len() == 0 {
        proof {
            assert(s@.subrange(0, 0 + p@.len() as int) =~= p@);
        }
        return true;
    }
    let last = s.len() - p.len();
    let mut at: usize = 0;
    while at <= last
        invariant
            last == s@.len() - p@.len(),
            p@.len() > 0,
            s@.len() == s.len(),
            at <= last + 1,
            forall|i: int| 0 <= i < at ==> #[trigger] s@.subrange(i, i + p@.len()) != p@,
        decreases last + 1 - at,
    {
        let m = matches_at(s, p, at);
        proof {
            lemma_occurs_at_subrange(s@, p@, at as int);
        }
        if m {
            return true;
        }
        at = at + 1;
    }
    false
}

// ---------------------------------------------------------------------------
// Unsigned decimal numbers
// ---------------------------------------------------------------------------

/// An ASCII decimal digit.
pub open spec fn is_digit(c: char) -> bool {
    48 <= (c as u32) <= 57
}

/// The value of an ASCII decimal digit.
pub open spec fn digit_value(c: char) -> nat {
    ((c as u32) - 48) as nat
}

/// Whether every character of `s` is an ASCII decimal digit.
pub open spec fn all_digits(s: Seq<char>) -> bool {
    forall|i: int| 0 <= i < s.len() ==> is_digit(#[trigger] s[i])
}

/// The value of a string of decimal digits (most significant first).
pub open spec fn digits_value(s: Seq<char>) -> nat
    decreases s.len(),
{
    if s.len() == 0 {
        0
    } else {
        digits_value(s.drop_last()) * 10 + digit_value(s.last())
    }
}

/// The digits that `str::parse` reads for an unsigned integer: the text
/// after an optional leading `+`.
pub open spec fn unsigned_digits(s: Seq<char>) -> Seq<char> {
    if s.len() > 0 && s[0] == '+' {
        s.drop_first()
    } else {
        s
    }
}

/// The number that `str::parse` reads from `s` for an unsigned integer type,
/// before the type's range is checked: an optional `+`, then one or more
/// ASCII digits, and nothing else.
pub open spec fn unsigned_literal(s: Seq<char>) -> Option<nat> {
    let d = unsigned_digits(s);
    if d.len() > 0 && all_digits(d) {
        Some(digits_value(d))
    } else {
        None
    }
}

/// What `str::parse::<T>()` returns (`Ok` as `Some`) for an unsigned integer
/// type `T` whose largest value is `max`.
pub open spec fn parse_unsigned(s: Seq<char>, max: nat) -> Option<nat> {
    match unsigned_literal(s) {
        Some(v) => if v <= max {
            Some(v)
        } else {
            None
        },
        None => None,
    }
}

proof fn lemma_digits_value_prefix(s: Seq<char>, k: int)
    requires
        0 <= k <= s.len(),
    ensures
        digits_value(s.take(k)) <= digits_value(s),
    decreases s.len(),
{
    if k == s.len() {
        assert(s.take(k) =~= s);
    } else {
        lemma_digits_value_prefix(s.drop_last(), k);
        assert(s.drop_last().take(k) =~= s.take(k));
    }
}

/// Parses an unsigned decimal number as `str::parse` does for an unsigned
/// integer type whose largest value is `max`.
pub fn parse_unsigned_chars(cs: &[char], max: u64) -> (r: Option<u64>)
    ensures
        r == (match parse_unsigned(cs@, max as nat) {
            Some(v) => Some(v as u64),
            None => None::<u64>,
        }),
{
    let n = cs.len();
    let start: usize = if n > 0 && cs[0] == '+' {
        1
    } else {
        0
    };
    let ghost d = unsigned_digits(cs@);
    assert(d =~= cs@.skip(start as int));
    if start == n {
        return None;
    }
    let mut acc: u64 = 0;
    let mut k: usize = start;
    while k < n
        invariant
            n == cs@.len(),
            start <= k <= n,
            d == unsigned_digits(cs@),
            d =~= cs@.skip(start as int),
            forall|i: int| 0 <= i < k - start ==> is_digit(#[trigger] d[i]),
            acc as nat == digits_value(d.take(k - start)),
            acc <= max,
        decreases n - k,
    {
        let c = cs[k];
        let v = c as u32;
        if v < 48 || v > 57 {
            proof {
                assert(d[k - start] == c);
                assert(!is_digit(d[k - start]));
                assert(!all_digits(d));
                assert(unsigned_digits(cs@) == d);
                assert(unsigned_literal(cs@) == None::<nat>);
            }
            return None;
        }
        let dv = (v - 48) as u64;
        let next: u128 = (acc as u128) * 10 + (dv as u128);
        proof {
            let m = (k - start) as int;
            assert(d.take(m + 1).drop_last() =~= d.take(m));
            assert(d.take(m + 1).last() == c);
            assert(d[m] == c);
            assert(digits_value(d.take(m + 1)) == acc * 10 + dv);
        }
        if next > max as u128 {
            proof {
                let m = (k - start + 1) as int;
                if all_digits(d) {
                    lemma_digits_value_prefix(d, m);
                    assert(digits_value(d) > max);
                }
                assert(parse_unsigned(cs@, max as nat) is None);
            }
            return None;
        }
        acc = next as u64;
        k = k + 1;
    }
    assert(d.take(n - start) =~= d);
    Some(acc)
}

/// Parses the trimmed text as an unsigned number, as
/// `text.trim().parse::<T>().ok()` does for an unsigned type `T` whose largest
/// value is `max`.
pub fn parse_trimmed_unsigned(text: &str, max: u64) -> (r: Option<u64>)
    ensures
        r == (match parse_unsigned(trim(text@), max as nat) {
            Some(v) => Some(v as u64),
            None => None::<u64>,
        }),
{
    let t = trim_str(text);
    parse_unsigned_chars(t.as_slice(), max)
}

// ---------------------------------------------------------------------------
// Splitting
// ---------------------------------------------------------------------------

/// The current piece, as a list of zero or one non-empty piece.
pub open spec fn nonempty_piece(cur: Seq<char>) -> Seq<Seq<char>> {
    if cur.len() == 0 {
        Seq::empty()
    } else {
        seq![cur]
    }
}

/// The words of `s` (maximal runs of non-whitespace), given that `cur` has
/// already been read as the start of the current word.
pub open spec fn words_from(s: Seq<char>, cur: Seq<char>) -> Seq<Seq<char>>
    decreases s.len(),
{
    if s.len() == 0 {
        nonempty_piece(cur)
    } else if is_space(s[0]) {
        nonempty_piece(cur) + words_from(s.drop_first(), Seq::empty())
    } else {
        words_from(s.drop_first(), cur.push(s[0]))
    }
}

/// `str::split_whitespace`: the maximal runs of non-whitespace characters.
pub open spec fn words(s: Seq<char>) -> Seq<Seq<char>> {
    words_from(s, Seq::empty())
}

/// `line` without one trailing carriage return.
pub open spec fn strip_cr(line: Seq<char>) -> Seq<char> {
    if line.len() > 0 && line.last() == '\r' {
        line.drop_last()
    } else {
        line
    }
}

/// The lines of `s`, given that `cur` has already been read as the start of
/// the current line.
pub open spec fn lines_from(s: Seq<char>, cur: Seq<char>) -> Seq<Seq<char>>
    decreases s.len(),
{
    if s.len() == 0 {
        nonempty_piece(cur)
    } else if s[0] == '\n' {
        seq![strip_cr(cur)] + lines_from(s.drop_first(), Seq::empty())
    } else {
        lines_from(s.drop_first(), cur.push(s[0]))
    }
}

/// `str::lines`: the text is cut after each `\n`; each piece loses that
/// `\n` and then one `\r` before it; a final piece without `\n` is kept as it
/// is unless it is empty.
pub open spec fn lines(s: Seq<char>) -> Seq<Seq<char>> {
    lines_from(s, Seq::empty())
}

/// The pieces of `s` between occurrences of `sep`, given that `cur` has
/// already been read as the start of the current piece.
pub open spec fn split_from(s: Seq<char>, sep: char, cur: Seq<char>) -> Seq<Seq<char>>
    decreases s.len(),
{
    if s.len() == 0 {
        seq![cur]
    } else if s[0] == sep {
        seq![cur] + split_from(s.drop_first(), sep, Seq::empty())
    } else {
        split_from(s.drop_first(), sep, cur.push(s[0]))
    }
}

/// `str::split` with a character separator: the (possibly empty) pieces
/// between the separators, one more than there are separators.
pub open spec fn split_on(s: Seq<char>, sep: char) -> Seq<Seq<char>> {
    split_from(s, sep, Seq::empty())
}

proof fn lemma_skip_step(s: Seq<char>, k: int)
    requires
        0 <= k < s.len(),
    ensures
        s.skip(k)[0] == s[k],
        s.skip(k).drop_first() =~= s.skip(k + 1),
        s.skip(k).len() > 0,
{
}

proof fn lemma_push_deep(out: Vec<Vec<char>>, old_out: Vec<Vec<char>>, piece: Vec<char>)
    requires
        out@ == old_out@.push(piece),
    ensures
        out.deep_view() == old_out.deep_view().push(piece@),
{
    assert(piece.deep_view() =~= piece@);
    assert forall|i: int| 0 <= i < out@.len() implies #[trigger] out.deep_view()[i]
        == old_out.deep_view().push(piece@)[i] by {
        if i < old_out@.len() {
            assert(out@[i] == old_out@[i]);
        }
    }
    assert(out.deep_view() =~= old_out.deep_view().push(piece@));
}

/// The deep view of a vector of character vectors, element by element.
pub proof fn lemma_pieces_view(v: Vec<Vec<char>>)
    ensures
        v.deep_view().len() == v@.len(),
        forall|i: int| 0 <= i < v@.len() ==> #[trigger] v.deep_view()[i] == v@[i]@,
{
    assert forall|i: int| 0 <= i < v@.len() implies #[trigger] v.deep_view()[i] == v@[i]@ by {
        assert(v@[i].deep_view() =~= v@[i]@);
    }
}

/// `str::split_whitespace` on a character sequence.
pub fn words_of(cs: &[char]) -> (r: Vec<Vec<char>>)
    ensures
        r.deep_view() == words(cs@),
{
    let n = cs.len();
    let mut out: Vec<Vec<char>> = Vec::new();
    let mut cur: Vec<char> = Vec::new();
    let mut k: usize = 0;
    assert(cs@.skip(0) =~= cs@);
    assert(out.deep_view() =~= Seq::<Seq<char>>::empty());
    while k < n
        invariant
            n == cs@.len(),
            k <= n,
            words(cs@) == out.deep_view() + words_from(cs@.skip(k as int), cur@),
        decreases n - k,
    {
        let c = cs[k];
        proof {
            lemma_skip_step(cs@, k as int);
        }
        if is_space_char(c) {
            if cur.len() > 0 {
                let ghost old_out = out;
                let piece = cur;
                out.push(piece);
                proof {
                    lemma_push_deep(out, old_out, piece);
                    assert(out.deep_view() + words_from(cs@.skip(k + 1), Seq::empty())
                        =~= old_out.deep_view() + (nonempty_piece(piece@) + words_from(
                        cs@.skip(k + 1),
                        Seq::empty(),
                    )));
                }
                cur = Vec::new();
            } else {
                assert(cur@ =~= Seq::<char>::empty());
                assert(nonempty_piece(cur@) + words_from(cs@.skip(k + 1), Seq::empty())
                    =~= words_from(cs@.skip(k + 1), cur@));
            }
        } else {
            cur.push(c);
        }
        k = k + 1;
    }
    if cur.len() > 0 {
        let ghost old_out = out;
        let piece = cur;
        out.push(piece);
        proof {
            lemma_push_deep(out, old_out, piece);
            assert(old_out.deep_view() + nonempty_piece(piece@) =~= out.deep_view());
        }
    } else {
        assert(out.deep_view() + nonempty_piece(cur@) =~= out.deep_view());
    }
    out
}

/// `str::lines` on a character sequence.
pub fn lines_of(cs: &[char]) -> (r: Vec<Vec<char>>)
    ensures
        r.deep_view() == lines(cs@),
{
    let n = cs.len();
    let mut out: Vec<Vec<char>> = Vec::new();
    let mut cur: Vec<char> = Vec::new();
    let mut k: usize = 0;
    assert(cs@.skip(0) =~= cs@);
    assert(out.deep_view() =~= Seq::<Seq<char>>::empty());
    while k < n
        invariant
            n == cs@.len(),
            k <= n,
            lines(cs@) == out.deep_view() + lines_from(cs@.skip(k as int), cur@),
        decreases n - k,
    {
        let c = cs[k];
        proof {
            lemma_skip_step(cs@, k as int);
        }
        if c == '\n' {
            let ghost before = cur@;
            if cur.len() > 0 && cur[cur.len() - 1] == '\r' {
                cur.pop();
            }
            assert(cur@ =~= strip_cr(before));
            let ghost old_out = out;
            let piece = cur;
            out.push(piece);
            proof {
                lemma_push_deep(out, old_out, piece);
                assert(out.deep_view() + lines_from(cs@.skip(k + 1), Seq::empty())
                    =~= old_out.deep_view() + (seq![strip_cr(before)] + lines_from(
                    cs@.skip(k + 1),
                    Seq::empty(),
                )));
            }
            cur = Vec::new();
        } else {
            cur.push(c);
        }
        k = k + 1;
    }
    if cur.len() > 0 {
        let ghost old_out = out;
        let piece = cur;
        out.push(piece);
        proof {
            lemma_push_deep(out, old_out, piece);
            assert(old_out.deep_view() + nonempty_piece(piece@) =~= out.deep_view());
        }
    } else {
        assert(out.deep_view() + nonempty_piece(cur@) =~= out.deep_view());
    }
    out
}

/// `str::split` with a character separator, on a character sequence.
pub fn split_chars(cs: &[char], sep: char) -> (r: Vec<Vec<char>>)
    ensures
        r.deep_view() == split_on(cs@, sep),
{
    let n = cs.len();
    let mut out: Vec<Vec<char>> = Vec::new();
    let mut cur: Vec<char> = Vec::new();
    let mut k: usize = 0;
    assert(cs@.skip(0) =~= cs@);
    assert(out.deep_view() =~= Seq::<Seq<char>>::empty());
    while k < n
        invariant
            n == cs@.len(),
            k <= n,
            split_on(cs@, sep) == out.deep_view() + split_from(cs@.skip(k as int), sep, cur@),
        decreases n - k,
    {
        let c = cs[k];
        proof {
            lemma_skip_step(cs@, k as int);
        }
        if c == sep {
            let ghost old_out = out;
            let piece = cur;
            out.push(piece);
            proof {
                lemma_push_deep(out, old_out, piece);
                assert(out.deep_view() + split_from(cs@.skip(k + 1), sep, Seq::empty())
                    =~= old_out.deep_view() + (seq![piece@] + split_from(
                    cs@.skip(k + 1),
                    sep,
                    Seq::empty(),
                )));
            }
            cur = Vec::new();
        } else {
            cur.push(c);
        }
        k = k + 1;
    }
    let ghost old_out = out;
    let piece = cur;
    out.push(piece);
    proof {
        lemma_push_deep(out, old_out, piece);
        assert(old_out.deep_view() + seq![piece@] =~= out.deep_view());
    }
    out
}

/// Replaces every occurrence of each character of `from` by `to`.
pub open spec fn replace_each(s: Seq<char>, from: Seq<char>, to: char) -> Seq<char> {
    Seq::new(s.len(), |i: int| if from.contains(s[i]) { to } else { s[i] })
}

/// `str::replace` applied once for each single-character pattern of `from`,
/// each with the single-character replacement `to`.
pub fn replace_chars(cs: &[char], from: &[char], to: char) -> (r: Vec<char>)
    ensures
        r@ == replace_each(cs@, from@, to),
{
    let n = cs.len();
    let mut out: Vec<char> = Vec::new();
    let mut k: usize = 0;
    while k < n
        invariant
            n == cs@.len(),
            k <= n,
            out@ =~= replace_each(cs@, from@, to).take(k as int),
        decreases n - k,
    {
        let c = cs[k];
        let mut hit = false;
        let mut m: usize = 0;
        while m < from.len()
            invariant
                m <= from@.len(),
                hit == (exists|i: int| 0 <= i < m && from@[i] == c),
            decreases from@.len() - m,
        {
            if from[m] == c {
                hit = true;
            }
            m = m + 1;
        }
        proof {
            if hit {
                let i = choose|i: int| 0 <= i < from@.len() && from@[i] == c;
                assert(from@.contains(c));
            } else {
                assert(!from@.contains(c));
            }
        }
        if hit {
            out.push(to);
        } else {
            out.push(c);
        }
        k = k + 1;
    }
    out
}

// ---------------------------------------------------------------------------
// Decimal formatting
// ---------------------------------------------------------------------------

/// The ASCII digit of `v` (below 10).
pub open spec fn decimal_digit(v: nat) -> char {
    (48 + v) as char
}

/// A natural number in decimal, most significant digit first, with no
/// leading zero: what `{}` formats an unsigned integer as.
pub open spec fn decimal_text(n: nat) -> Seq<char>
    decreases n,
{
    if n < 10 {
        seq![decimal_digit(n)]
    } else {
        decimal_text(n / 10).push(decimal_digit(n % 10))
    }
}

fn push_decimal(out: &mut Vec<char>, n: usize)
    ensures
        final(out)@ == old(out)@ + decimal_text(n as nat),
    decreases n,
{
    if n >= 10 {
        push_decimal(out, n / 10);
    }
    let d: u32 = (n % 10) as u32;
    let c: char = if d == 0 { '0' } else if d == 1 { '1' } else if d == 2 { '2' } else if d == 3 {
        '3'
    } else if d == 4 { '4' } else if d == 5 { '5' } else if d == 6 { '6' } else if d == 7 {
        '7'
    } else if d == 8 { '8' } else { '9' };
    out.push(c);
    proof {
        if n < 10 {
            assert(old(out)@ + decimal_text(n as nat) =~= old(out)@.push(c));
        } else {
            assert(decimal_text(n as nat) == decimal_text((n / 10) as nat).push(decimal_digit((n % 10) as nat)));
            assert(old(out)@ + decimal_text(n as nat) =~= (old(out)@ + decimal_text((n / 10) as nat)).push(c));
        }
    }
}

/// Writes `n` in decimal, as `n.to_string()` does.
pub fn decimal_string(n: usize) -> (r: String)
    ensures
        r@ == decimal_text(n as nat),
{
    let mut out: Vec<char> = Vec::new();
    push_decimal(&mut out, n);
    assert(out@ =~= decimal_text(n as nat));
    string_from_chars(out.as_slice())
}

// ---------------------------------------------------------------------------
// Case
// ---------------------------------------------------------------------------

/// What `str::to_lowercase` gives for a string: its Unicode lowercase form.
pub uninterp spec fn lowercase_of(s: Seq<char>) -> Seq<char>;

/// Calls `str::to_lowercase` (std): the lowercase form of `s` by the
/// Unicode `Lowercase` property. The result is only named, not described.
#[verifier::external_body]
pub(crate) fn to_lowercase(s: &str) -> (r: String)
    ensures
        r@ == lowercase_of(s@),
{
    s.to_lowercase()
}

} // verus!
