//! Character-sequence utilities shared by the rest of the crate: substring
//! containment, trimming, splitting around separator characters, padding and
//! lexicographic comparison, each specified over `Seq<char>` views.

use vstd::prelude::*;

verus! {

/// Holds when `needle` occurs in `hay` starting at position `i`.
pub open spec fn occurs_at(hay: Seq<char>, needle: Seq<char>, i: int) -> bool {
    0 <= i && i + needle.len() <= hay.len() && hay.subrange(i, i + needle.len()) == needle
}

/// Holds when `needle` occurs somewhere in `hay` (an empty `needle` always does).
pub open spec fn contains_seq(hay: Seq<char>, needle: Seq<char>) -> bool {
    exists|i: int| occurs_at(hay, needle, i)
}

/// Substring containment, the way the rollout monitor classifies images.
pub fn contains_str(hay: &str, needle: &str) -> (r: bool)
    ensures
        r == contains_seq(hay@, needle@),
{
    let hay_len = hay.unicode_len();
    let needle_len = needle.unicode_len();
    if needle_len > hay_len {
        proof {
            assert forall|i: int| !occurs_at(hay@, needle@, i) by {}
        }
        return false;
    }
    let mut i: usize = 0;
    loop
        invariant
            needle_len == needle@.len(),
            hay_len == hay@.len(),
            needle_len <= hay_len,
            0 <= i <= hay_len - needle_len + 1,
            forall|k: int| 0 <= k < i ==> !occurs_at(hay@, needle@, k),
        decreases hay_len - needle_len + 1 - i,
    {
        if i > hay_len - needle_len {
            proof {
                assert forall|k: int| !occurs_at(hay@, needle@, k) by {}
            }
            return false;
        }
        let mut j: usize = 0;
        let mut matched = true;
        while j < needle_len
            invariant
                needle_len == needle@.len(),
                hay_len == hay@.len(),
                needle_len <= hay_len,
                0 <= i <= hay_len - needle_len,
                0 <= j <= needle_len,
                matched <==> (forall|m: int| 0 <= m < j ==> hay@[i + m] == needle@[m]),
            decreases needle_len - j,
        {
            let c = hay.get_char(i + j);
            let d = needle.get_char(j);
            if c != d {
                matched = false;
                j = needle_len;
            } else {
                j = j + 1;
            }
        }
        if matched {
            proof {
                assert(hay@.subrange(i as int, i + needle@.len()) =~= needle@);
                assert(occurs_at(hay@, needle@, i as int));
            }
            return true;
        }
        i = i + 1;
    }
}

/// The white-space characters that trimming removes, as Rust's
/// `char::is_whitespace` defines them (the Unicode `White_Space` property).
pub open spec fn is_space_char(c: char) -> bool {
    ||| c == ' '
    ||| c == '\t'
    ||| c == '\n'
    ||| c == '\r'
    ||| c as u32 == 0x0b
    ||| c as u32 == 0x0c
    ||| c as u32 == 0x85
    ||| c as u32 == 0xa0
    ||| c as u32 == 0x1680
    ||| (0x2000 <= c as u32 && c as u32 <= 0x200a)
    ||| c as u32 == 0x2028
    ||| c as u32 == 0x2029
    ||| c as u32 == 0x202f
    ||| c as u32 == 0x205f
    ||| c as u32 == 0x3000
}

/// `s` with its leading white space removed.
pub open spec fn trim_start_seq(s: Seq<char>) -> Seq<char>
    decreases s.len(),
{
    if s.len() > 0 && is_space_char(s[0]) {
        trim_start_seq(s.drop_first())
    } else {
        s
    }
}

/// `s` with its trailing white space removed.
pub open spec fn trim_end_seq(s: Seq<char>) -> Seq<char>
    decreases s.len(),
{
    if s.len() > 0 && is_space_char(s.last()) {
        trim_end_seq(s.drop_last())
    } else {
        s
    }
}

/// `s` with white space removed from both ends.
pub open spec fn trim_seq(s: Seq<char>) -> Seq<char> {
    trim_end_seq(trim_start_seq(s))
}

pub(crate) fn is_space(c: char) -> (r: bool)
    ensures
        r == is_space_char(c),
{
    let n = c as u32;
    n == 0x20 || n == 0x09 || n == 0x0a || n == 0x0d || n == 0x0b || n == 0x0c || n == 0x85
        || n == 0xa0 || n == 0x1680 || (0x2000 <= n && n <= 0x200a) || n == 0x2028 || n == 0x2029
        || n == 0x202f || n == 0x205f || n == 0x3000
}

/// Removes leading and trailing white space.
pub fn trim_str(s: &str) -> (r: &str)
    ensures
        r@ == trim_seq(s@),
{
    let len = s.unicode_len();
    proof {
        assert(s@.subrange(0, len as int) =~= s@);
    }
    let mut lo: usize = 0;
    while lo < len && is_space(s.get_char(lo))
        invariant
            len == s@.len(),
            0 <= lo <= len,
            trim_start_seq(s@) == trim_start_seq(s@.subrange(lo as int, len as int)),
        decreases len - lo,
    {
        proof {
            let sub = s@.subrange(lo as int, len as int);
            assert(sub.drop_first() =~= s@.subrange(lo + 1, len as int));
        }
        lo = lo + 1;
    }
    proof {
        let sub = s@.subrange(lo as int, len as int);
        if lo == len {
            assert(sub.len() == 0);
        }
        assert(trim_start_seq(s@) == sub);
    }
    let mut hi: usize = len;
    while hi > lo && is_space(s.get_char(hi - 1))
        invariant
            len == s@.len(),
            0 <= lo <= hi <= len,
            trim_start_seq(s@) == s@.subrange(lo as int, len as int),
            trim_end_seq(s@.subrange(lo as int, len as int)) == trim_end_seq(
                s@.subrange(lo as int, hi as int),
            ),
        decreases hi,
    {
        proof {
            let sub = s@.subrange(lo as int, hi as int);
            assert(sub.last() == s@[hi - 1]);
            assert(sub.drop_last() =~= s@.subrange(lo as int, hi - 1));
        }
        hi = hi - 1;
    }
    proof {
        let sub = s@.subrange(lo as int, hi as int);
        if hi == lo {
            assert(sub.len() == 0);
        } else {
            assert(sub.last() == s@[hi - 1]);
        }
        assert(trim_seq(s@) == sub);
    }
    s.substring_char(lo, hi)
}

/// The part of `s` after the last occurrence of `sep`; all of `s` when `sep`
/// does not occur.
pub open spec fn tail_after_last(s: Seq<char>, sep: char) -> Seq<char>
    decreases s.len(),
{
    if s.len() == 0 {
        s
    } else if s.last() == sep {
        Seq::<char>::empty()
    } else {
        tail_after_last(s.drop_last(), sep).push(s.last())
    }
}

proof fn lemma_tail_after_last(s: Seq<char>, sep: char, cut: int)
    requires
        0 <= cut <= s.len(),
        forall|k: int| cut <= k < s.len() ==> s[k] != sep,
        cut == 0 || s[cut - 1] == sep,
    ensures
        tail_after_last(s, sep) == s.subrange(cut, s.len() as int),
    decreases s.len(),
{
    if s.len() == 0 {
        assert(tail_after_last(s, sep) =~= s.subrange(cut, s.len() as int));
    } else if s.last() == sep {
        assert(cut == s.len());
        assert(tail_after_last(s, sep) =~= s.subrange(cut, s.len() as int));
    } else {
        lemma_tail_after_last(s.drop_last(), sep, cut);
        assert(s.drop_last().subrange(cut, s.len() - 1) =~= s.subrange(cut, s.len() - 1));
        assert(s.subrange(cut, s.len() - 1).push(s.last()) =~= s.subrange(cut, s.len() as int));
    }
}

/// The substring after the last occurrence of `sep`.
pub fn last_segment(s: &str, sep: char) -> (r: &str)
    ensures
        r@ == tail_after_last(s@, sep),
{
    let len = s.unicode_len();
    let mut cut: usize = len;
    while cut > 0 && s.get_char(cut - 1) != sep
        invariant
            len == s@.len(),
            0 <= cut <= len,
            forall|k: int| cut <= k < len ==> s@[k] != sep,
        decreases cut,
    {
        cut = cut - 1;
    }
    proof {
        lemma_tail_after_last(s@, sep, cut as int);
    }
    s.substring_char(cut, len)
}

/// The part of `s` before the first occurrence of `sep`; all of `s` when
/// `sep` does not occur.
pub open spec fn head_before_first(s: Seq<char>, sep: char) -> Seq<char>
    decreases s.len(),
{
    if s.len() == 0 {
        s
    } else if s[0] == sep {
        Seq::<char>::empty()
    } else {
        seq![s[0]] + head_before_first(s.drop_first(), sep)
    }
}

proof fn lemma_head_before_first(s: Seq<char>, sep: char, cut: int)
    requires
        0 <= cut <= s.len(),
        forall|k: int| 0 <= k < cut ==> s[k] != sep,
        cut == s.len() || s[cut] == sep,
    ensures
        head_before_first(s, sep) == s.subrange(0, cut),
    decreases s.len(),
{
    if s.len() == 0 {
        assert(head_before_first(s, sep) =~= s.subrange(0, cut));
    } else if s[0] == sep {
        assert(cut == 0);
        assert(head_before_first(s, sep) =~= s.subrange(0, cut));
    } else {
        assert(cut >= 1);
        lemma_head_before_first(s.drop_first(), sep, cut - 1);
        assert(s.drop_first().subrange(0, cut - 1) =~= s.subrange(1, cut));
        assert(seq![s[0]] + s.subrange(1, cut) =~= s.subrange(0, cut));
    }
}

/// The split-off head is a prefix of `s`, holds no `sep`, equals `s` exactly
/// when `sep` does not occur, and otherwise stops right before the first
/// `sep`.
pub proof fn lemma_head_before_first_props(s: Seq<char>, sep: char)
    ensures
        head_before_first(s, sep).len() <= s.len(),
        head_before_first(s, sep) == s.subrange(0, head_before_first(s, sep).len() as int),
        forall|k: int| 0 <= k < head_before_first(s, sep).len() ==> s[k] != sep,
        head_before_first(s, sep).len() < s.len() ==> s[head_before_first(s, sep).len() as int]
            == sep,
    decreases s.len(),
{
    let h = head_before_first(s, sep);
    if s.len() == 0 {
        assert(h == s.subrange(0, h.len() as int));
    } else if s[0] == sep {
        assert(h =~= s.subrange(0, 0));
    } else {
        lemma_head_before_first_props(s.drop_first(), sep);
        let h2 = head_before_first(s.drop_first(), sep);
        assert(h == seq![s[0]] + h2);
        assert(s.drop_first().subrange(0, h2.len() as int) =~= s.subrange(1, h2.len() as int + 1));
        assert(h =~= s.subrange(0, h.len() as int));
        assert forall|k: int| 0 <= k < h.len() implies s[k] != sep by {
            if k > 0 {
                assert(s.drop_first()[k - 1] != sep);
            }
        }
        if h.len() < s.len() {
            assert(s.drop_first()[h2.len() as int] == sep);
        }
    }
}

/// The substring before the first occurrence of `sep`.
pub fn first_segment(s: &str, sep: char) -> (r: &str)
    ensures
        r@ == head_before_first(s@, sep),
{
    let len = s.unicode_len();
    let mut cut: usize = 0;
    while cut < len && s.get_char(cut) != sep
        invariant
            len == s@.len(),
            0 <= cut <= len,
            forall|k: int| 0 <= k < cut ==> s@[k] != sep,
        decreases len - cut,
    {
        cut = cut + 1;
    }
    proof {
        lemma_head_before_first(s@, sep, cut as int);
    }
    s.substring_char(0, cut)
}

/// Character-for-character equality of two string slices.
pub fn str_eq(a: &str, b: &str) -> (r: bool)
    ensures
        r == (a@ == b@),
{
    let a_len = a.unicode_len();
    let b_len = b.unicode_len();
    if a_len != b_len {
        return false;
    }
    let mut i: usize = 0;
    while i < a_len
        invariant
            a_len == a@.len(),
            b_len == b@.len(),
            a_len == b_len,
            0 <= i <= a_len,
            forall|k: int| 0 <= k < i ==> a@[k] == b@[k],
        decreases a_len - i,
    {
        if a.get_char(i) != b.get_char(i) {
            return false;
        }
        i = i + 1;
    }
    proof {
        assert(a@ =~= b@);
    }
    true
}

/// Holds when `prefix` is a prefix of `s`.
pub open spec fn starts_with_seq(s: Seq<char>, prefix: Seq<char>) -> bool {
    prefix.len() <= s.len() && s.subrange(0, prefix.len() as int) == prefix
}

/// Prefix test on string slices.
pub fn str_starts_with(s: &str, prefix: &str) -> (r: bool)
    ensures
        r == starts_with_seq(s@, prefix@),
{
    let s_len = s.unicode_len();
    let p_len = prefix.unicode_len();
    if p_len > s_len {
        return false;
    }
    let mut i: usize = 0;
    while i < p_len
        invariant
            s_len == s@.len(),
            p_len == prefix@.len(),
            p_len <= s_len,
            0 <= i <= p_len,
            forall|k: int| 0 <= k < i ==> s@[k] == prefix@[k],
        decreases p_len - i,
    {
        if s.get_char(i) != prefix.get_char(i) {
            return false;
        }
        i = i + 1;
    }
    proof {
        assert(s@.subrange(0, prefix@.len() as int) =~= prefix@);
    }
    true
}

/// `s` extended on the right with spaces up to `width` characters; `s`
/// unchanged when it is already that wide.
pub open spec fn padded_right(s: Seq<char>, width: int) -> Seq<char> {
    if s.len() >= width {
        s
    } else {
        s + Seq::new((width - s.len()) as nat, |i: int| ' ')
    }
}

/// Left-aligns `s` in a field of `width` characters.
pub fn pad_right(s: &str, width: usize) -> (r: String)
    ensures
        r@ == padded_right(s@, width as int),
{
    let mut r = s.to_owned();
    let mut n = s.unicode_len();
    proof {
        assert(r@ =~= s@ + Seq::new(0, |i: int| ' '));
    }
    while n < width
        invariant
            s@.len() <= n,
            n <= width || n == s@.len(),
            r@ == s@ + Seq::new((n - s@.len()) as nat, |i: int| ' '),
        decreases width - n,
    {
        proof {
            reveal_strlit(" ");
            assert(r@ + " "@ =~= s@ + Seq::new((n + 1 - s@.len()) as nat, |i: int| ' '));
        }
        r.append(" ");
        n = n + 1;
    }
    proof {
        if s@.len() >= width {
            assert(r@ =~= s@);
        }
    }
    r
}

/// Lexicographic order on character sequences by code point, the order in
/// which Rust compares strings.
pub open spec fn lex_le(a: Seq<char>, b: Seq<char>) -> bool
    decreases a.len(),
{
    if a.len() == 0 {
        true
    } else if b.len() == 0 {
        false
    } else if (a[0] as u32) < (b[0] as u32) {
        true
    } else if (a[0] as u32) > (b[0] as u32) {
        false
    } else {
        lex_le(a.drop_first(), b.drop_first())
    }
}

/// The order is total.
pub proof fn lemma_lex_le_total(a: Seq<char>, b: Seq<char>)
    ensures
        lex_le(a, b) || lex_le(b, a),
    decreases a.len(),
{
    if a.len() > 0 && b.len() > 0 && a[0] as u32 == b[0] as u32 {
        lemma_lex_le_total(a.drop_first(), b.drop_first());
    }
}

/// The order is transitive.
pub proof fn lemma_lex_le_trans(a: Seq<char>, b: Seq<char>, c: Seq<char>)
    requires
        lex_le(a, b),
        lex_le(b, c),
    ensures
        lex_le(a, c),
    decreases a.len(),
{
    if a.len() > 0 && b.len() > 0 && c.len() > 0 && a[0] as u32 == b[0] as u32 && b[0] as u32
        == c[0] as u32 {
        lemma_lex_le_trans(a.drop_first(), b.drop_first(), c.drop_first());
    }
}

/// String comparison in lexicographic order.
pub fn str_le(a: &str, b: &str) -> (r: bool)
    ensures
        r == lex_le(a@, b@),
{
    let a_len = a.unicode_len();
    let b_len = b.unicode_len();
    proof {
        assert(a@.skip(0) =~= a@);
        assert(b@.skip(0) =~= b@);
    }
    let mut i: usize = 0;
    loop
        invariant
            a_len == a@.len(),
            b_len == b@.len(),
            0 <= i <= a_len,
            0 <= i <= b_len,
            lex_le(a@, b@) == lex_le(a@.skip(i as int), b@.skip(i as int)),
        decreases a_len - i,
    {
        if i == a_len {
            return true;
        }
        if i == b_len {
            return false;
        }
        let ca = a.get_char(i);
        let cb = b.get_char(i);
        if (ca as u32) < (cb as u32) {
            return true;
        }
        if (ca as u32) > (cb as u32) {
            return false;
        }
        proof {
            assert(a@.skip(i as int).drop_first() =~= a@.skip(i + 1));
            assert(b@.skip(i as int).drop_first() =~= b@.skip(i + 1));
        }
        i = i + 1;
    }
}

/// The elements of `parts` in order with `sep` between each adjacent pair.
pub open spec fn joined(parts: Seq<Seq<char>>, sep: Seq<char>) -> Seq<char>
    decreases parts.len(),
{
    if parts.len() == 0 {
        Seq::<char>::empty()
    } else if parts.len() == 1 {
        parts[0]
    } else {
        parts[0] + sep + joined(parts.drop_first(), sep)
    }
}

proof fn lemma_joined_push(parts: Seq<Seq<char>>, sep: Seq<char>, x: Seq<char>)
    ensures
        joined(parts.push(x), sep) == if parts.len() == 0 {
            x
        } else {
            joined(parts, sep) + sep + x
        },
    decreases parts.len(),
{
    if parts.len() == 0 {
        assert(joined(parts.push(x), sep) =~= x);
    } else {
        assert(parts.push(x).drop_first() =~= parts.drop_first().push(x));
        lemma_joined_push(parts.drop_first(), sep, x);
        if parts.len() == 1 {
            assert(joined(parts.push(x), sep) =~= joined(parts, sep) + sep + x);
        } else {
            assert(parts.push(x)[0] == parts[0]);
            assert(parts[0] + sep + (joined(parts.drop_first(), sep) + sep + x) =~= (parts[0] + sep
                + joined(parts.drop_first(), sep)) + sep + x);
        }
    }
}

/// Joins strings with a separator, as the tag list of an image is displayed.
pub fn join_strings(parts: &Vec<String>, sep: &str) -> (r: String)
    ensures
        r@ == joined(parts.deep_view(), sep@),
{
    let mut r = String::new();
    let mut i: usize = 0;
    while i < parts.len()
        invariant
            0 <= i <= parts@.len(),
            parts.deep_view().len() == parts@.len(),
            forall|k: int| 0 <= k < parts@.len() ==> parts.deep_view()[k] == parts@[k]@,
            r@ == joined(parts.deep_view().take(i as int), sep@),
        decreases parts@.len() - i,
    {
        proof {
            let dv = parts.deep_view();
            assert(dv.take(i as int).push(dv[i as int]) =~= dv.take(i + 1));
            lemma_joined_push(dv.take(i as int), sep@, dv[i as int]);
        }
        if i > 0 {
            r.append(sep);
        }
        r.append(parts[i].as_str());
        i = i + 1;
    }
    proof {
        assert(parts.deep_view().take(parts@.len() as int) =~= parts.deep_view());
    }
    r
}

/// The decimal digit `d` as a character, for `0 <= d <= 9`.
pub open spec fn dec_digit(d: int) -> char {
    if d == 0 {
        '0'
    } else if d == 1 {
        '1'
    } else if d == 2 {
        '2'
    } else if d == 3 {
        '3'
    } else if d == 4 {
        '4'
    } else if d == 5 {
        '5'
    } else if d == 6 {
        '6'
    } else if d == 7 {
        '7'
    } else if d == 8 {
        '8'
    } else {
        '9'
    }
}

/// The decimal representation of `n >= 0`, most significant digit first.
pub open spec fn dec_seq(n: int) -> Seq<char>
    decreases n,
{
    if n < 10 {
        seq![dec_digit(n)]
    } else {
        dec_seq(n / 10).push(dec_digit(n % 10))
    }
}

fn digit_str(d: u64) -> (r: &'static str)
    requires
        d <= 9,
    ensures
        r@ =~= seq![dec_digit(d as int)],
{
    proof {
        reveal_strlit("0");
        reveal_strlit("1");
        reveal_strlit("2");
        reveal_strlit("3");
        reveal_strlit("4");
        reveal_strlit("5");
        reveal_strlit("6");
        reveal_strlit("7");
        reveal_strlit("8");
        reveal_strlit("9");
    }
    match d {
        0 => "0",
        1 => "1",
        2 => "2",
        3 => "3",
        4 => "4",
        5 => "5",
        6 => "6",
        7 => "7",
        8 => "8",
        _ => "9",
    }
}

fn push_dec(n: u64, out: &mut String)
    ensures
        final(out)@ == old(out)@ + dec_seq(n as int),
    decreases n,
{
    if n >= 10 {
        push_dec(n / 10, out);
    }
    out.append(digit_str(n % 10));
}

/// The decimal representation of `n`.
pub fn u64_to_dec(n: u64) -> (r: String)
    ensures
        r@ == dec_seq(n as int),
{
    let mut r = String::new();
    push_dec(n, &mut r);
    proof {
        assert(Seq::<char>::empty() + dec_seq(n as int) =~= dec_seq(n as int));
    }
    r
}

} // verus!
