//! Character and string helpers shared by the rest of the library.

use vstd::prelude::*;
use vstd::string::StrSliceExecFns;

verus! {

/// Appends one character to a string (`String::push`).
///
/// Trusted: std documents that `push` appends the given `char` to the end of
/// the string; the contract says exactly that of the character view.
#[verifier::external_body]
pub(crate) fn push_char(s: &mut String, c: char)
    ensures
        final(s)@ == old(s)@.push(c),
{
    s.push(c);
}

/// A copy of an optional string.
pub fn clone_opt_string(s: &Option<String>) -> (r: Option<String>)
    ensures
        r == *s,
{
    match s {
        Some(v) => Some(v.clone()),
        None => None,
    }
}

/// The decimal digit character for `d < 10`.
pub open spec fn digit_char(d: nat) -> char {
    if d == 0 { '0' }
    else if d == 1 { '1' }
    else if d == 2 { '2' }
    else if d == 3 { '3' }
    else if d == 4 { '4' }
    else if d == 5 { '5' }
    else if d == 6 { '6' }
    else if d == 7 { '7' }
    else if d == 8 { '8' }
    else { '9' }
}

/// The lower-case hexadecimal digit character for `d < 16`.
pub open spec fn hex_char(d: nat) -> char {
    if d < 10 { digit_char(d) }
    else if d == 10 { 'a' }
    else if d == 11 { 'b' }
    else if d == 12 { 'c' }
    else if d == 13 { 'd' }
    else if d == 14 { 'e' }
    else { 'f' }
}

/// The decimal notation of `n`, without sign or leading zeros
/// (what `to_string` gives for an unsigned integer).
pub open spec fn decimal(n: nat) -> Seq<char>
    decreases n,
{
    if n < 10 {
        seq![digit_char(n)]
    } else {
        decimal(n / 10).push(digit_char(n % 10))
    }
}

/// Two lower-case hexadecimal digits of a byte (`format!("{:02x}", b)`).
pub open spec fn hex_byte(b: u8) -> Seq<char> {
    seq![hex_char((b / 16) as nat), hex_char((b % 16) as nat)]
}

fn hex_digit(d: u8) -> (c: char)
    requires
        d < 16,
    ensures
        c == hex_char(d as nat),
{
    if d == 0 { '0' }
    else if d == 1 { '1' }
    else if d == 2 { '2' }
    else if d == 3 { '3' }
    else if d == 4 { '4' }
    else if d == 5 { '5' }
    else if d == 6 { '6' }
    else if d == 7 { '7' }
    else if d == 8 { '8' }
    else if d == 9 { '9' }
    else if d == 10 { 'a' }
    else if d == 11 { 'b' }
    else if d == 12 { 'c' }
    else if d == 13 { 'd' }
    else if d == 14 { 'e' }
    else { 'f' }
}

/// Appends the two hexadecimal digits of `b` to `s`.
pub fn push_hex_byte(s: &mut String, b: u8)
    ensures
        final(s)@ == old(s)@ + hex_byte(b),
{
    push_char(s, hex_digit(b / 16));
    push_char(s, hex_digit(b % 16));
    assert(s@ =~= old(s)@ + hex_byte(b));
}

/// Different numbers have different decimal notations.
pub proof fn lemma_decimal_injective(a: nat, b: nat)
    requires
        decimal(a) == decimal(b),
    ensures
        a == b,
    decreases a + b,
{
    if a < 10 && b < 10 {
        assert(decimal(a)[0] == digit_char(a));
        assert(decimal(b)[0] == digit_char(b));
    } else if a < 10 {
        lemma_decimal_len(b / 10);
        assert(decimal(b).len() >= 2);
    } else if b < 10 {
        lemma_decimal_len(a / 10);
        assert(decimal(a).len() >= 2);
    } else {
        assert(decimal(a).drop_last() == decimal(a / 10));
        assert(decimal(b).drop_last() == decimal(b / 10));
        lemma_decimal_injective(a / 10, b / 10);
        assert(decimal(a).last() == digit_char(a % 10));
        assert(decimal(b).last() == digit_char(b % 10));
    }
}

proof fn lemma_decimal_len(n: nat)
    ensures
        decimal(n).len() >= 1,
    decreases n,
{
    if n >= 10 {
        lemma_decimal_len(n / 10);
    }
}

/// The number that the decimal digits `s` stand for.
pub open spec fn digits_value(s: Seq<char>) -> int
    decreases s.len(),
{
    if s.len() == 0 {
        0
    } else {
        digits_value(s.drop_last()) * 10 + (s.last() as int - '0' as int)
    }
}

/// The decimal notation of `n` is a non-empty string of the digits `0` to
/// `9` that reads back as `n`, with no leading zero unless `n` is zero.
pub proof fn law_decimal_reads_back(n: nat)
    ensures
        decimal(n).len() > 0,
        forall|i: int| 0 <= i < decimal(n).len() ==> '0' <= #[trigger] decimal(n)[i] <= '9',
        digits_value(decimal(n)) == n,
        n > 0 ==> decimal(n)[0] != '0',
    decreases n,
{
    if n < 10 {
        assert(digits_value(decimal(n)) == digits_value(decimal(n).drop_last()) * 10 + (decimal(n).last() as int - '0' as int));
        assert(decimal(n).drop_last() =~= Seq::<char>::empty());
    } else {
        law_decimal_reads_back(n / 10);
        let d = decimal(n);
        assert(d.drop_last() == decimal(n / 10));
        assert forall|i: int| 0 <= i < d.len() implies '0' <= #[trigger] d[i] <= '9' by {
            if i < d.len() - 1 {
                assert(d[i] == decimal(n / 10)[i]);
            }
        }
        assert(d[0] == decimal(n / 10)[0]);
        assert(n / 10 > 0);
    }
}

/// Appends the decimal notation of `n` to `s`.
pub fn push_decimal(s: &mut String, n: u64)
    ensures
        final(s)@ == old(s)@ + decimal(n as nat),
{
    // collect digits least significant first
    let mut digits: Vec<char> = Vec::new();
    let mut m: u64 = n;
    while m >= 10
        invariant
            decimal(n as nat) =~= decimal(m as nat) + digits@.reverse(),
        decreases m,
    {
        let d = (m % 10) as u8;
        proof {
            assert(digits@.push(digit_char(d as nat)).reverse()
                =~= seq![digit_char(d as nat)] + digits@.reverse());
        }
        digits.push(hex_digit(d));
        m = m / 10;
    }
    proof {
        assert(digits@.push(digit_char(m as nat)).reverse()
            =~= seq![digit_char(m as nat)] + digits@.reverse());
    }
    digits.push(hex_digit(m as u8));
    assert(decimal(n as nat) =~= digits@.reverse());
    let len = digits.len();
    let mut i: usize = len;
    let ghost start = s@;
    while i > 0
        invariant
            i <= len == digits@.len(),
            s@ =~= start + digits@.reverse().subrange(0, (len - i) as int),
        decreases i,
    {
        i = i - 1;
        push_char(s, digits[i]);
        assert(digits@.reverse().subrange(0, (len - i) as int)
            =~= digits@.reverse().subrange(0, (len - i - 1) as int).push(digits@[i as int]));
    }
    assert(digits@.reverse().subrange(0, len as int) =~= digits@.reverse());
}

/// The decimal notation of `n` as a new string.
pub fn decimal_string(n: u64) -> (s: String)
    ensures
        s@ == decimal(n as nat),
{
    let mut s = String::new();
    push_decimal(&mut s, n);
    assert(s@ =~= decimal(n as nat));
    s
}

/// Unicode `White_Space` (what `char::is_whitespace` tests).
pub open spec fn is_space(c: char) -> bool {
    let u = c as u32;
    ||| 0x09 <= u <= 0x0D
    ||| u == 0x20
    ||| u == 0x85
    ||| u == 0xA0
    ||| u == 0x1680
    ||| 0x2000 <= u <= 0x200A
    ||| u == 0x2028
    ||| u == 0x2029
    ||| u == 0x202F
    ||| u == 0x205F
    ||| u == 0x3000
}

/// Whether `c` is Unicode white space.
pub fn is_whitespace(c: char) -> (b: bool)
    ensures
        b == is_space(c),
{
    let u = c as u32;
    (0x09 <= u && u <= 0x0D) || u == 0x20 || u == 0x85 || u == 0xA0 || u == 0x1680 || (0x2000
        <= u && u <= 0x200A) || u == 0x2028 || u == 0x2029 || u == 0x202F || u == 0x205F || u
        == 0x3000
}

/// The characters of a string slice, in order.
pub fn chars_of(s: &str) -> (v: Vec<char>)
    ensures
        v@ == s@,
{
    let n = s.unicode_len();
    let mut v: Vec<char> = Vec::new();
    let mut i: usize = 0;
    while i < n
        invariant
            i <= n == s@.len(),
            v@ =~= s@.subrange(0, i as int),
        decreases n - i,
    {
        v.push(s.get_char(i));
        i = i + 1;
    }
    v
}

/// A new string holding `v[lo..hi]`.
pub fn string_of(v: &Vec<char>, lo: usize, hi: usize) -> (s: String)
    requires
        lo <= hi <= v@.len(),
    ensures
        s@ == v@.subrange(lo as int, hi as int),
{
    let mut s = String::new();
    let mut i = lo;
    while i < hi
        invariant
            lo <= i <= hi <= v@.len(),
            s@ =~= v@.subrange(lo as int, i as int),
        decreases hi - i,
    {
        push_char(&mut s, v[i]);
        i = i + 1;
    }
    s
}

/// `s` without leading white space.
pub open spec fn trim_start(s: Seq<char>) -> Seq<char>
    decreases s.len(),
{
    if s.len() > 0 && is_space(s[0]) {
        trim_start(s.drop_first())
    } else {
        s
    }
}

/// `s` without trailing white space.
pub open spec fn trim_end(s: Seq<char>) -> Seq<char>
    decreases s.len(),
{
    if s.len() > 0 && is_space(s.last()) {
        trim_end(s.drop_last())
    } else {
        s
    }
}

/// `s` without leading and trailing white space (`str::trim`).
pub open spec fn trim(s: Seq<char>) -> Seq<char> {
    trim_end(trim_start(s))
}

proof fn lemma_trim_start_at(s: Seq<char>) -> (i: int)
    ensures
        0 <= i <= s.len(),
        trim_start(s) == s.subrange(i, s.len() as int),
        forall|k: int| 0 <= k < i ==> is_space(#[trigger] s[k]),
        i < s.len() ==> !is_space(s[i]),
    decreases s.len(),
{
    if s.len() > 0 && is_space(s[0]) {
        let j = lemma_trim_start_at(s.drop_first());
        assert(s.drop_first().subrange(j, s.len() - 1) =~= s.subrange(j + 1, s.len() as int));
        assert forall|k: int| 0 <= k < j + 1 implies is_space(#[trigger] s[k]) by {
            if k > 0 {
                assert(s[k] == s.drop_first()[k - 1]);
            }
        }
        j + 1
    } else {
        assert(s.subrange(0, s.len() as int) =~= s);
        0
    }
}

proof fn lemma_trim_end_at(s: Seq<char>) -> (j: int)
    ensures
        0 <= j <= s.len(),
        trim_end(s) == s.subrange(0, j),
        forall|k: int| j <= k < s.len() ==> is_space(#[trigger] s[k]),
        j > 0 ==> !is_space(s[j - 1]),
    decreases s.len(),
{
    if s.len() > 0 && is_space(s.last()) {
        let j = lemma_trim_end_at(s.drop_last());
        assert(s.drop_last().subrange(0, j) =~= s.subrange(0, j));
        assert forall|k: int| j <= k < s.len() implies is_space(#[trigger] s[k]) by {
            if k < s.len() - 1 {
                assert(s[k] == s.drop_last()[k]);
            }
        }
        j
    } else {
        assert(s.subrange(0, s.len() as int) =~= s);
        s.len() as int
    }
}

/// `str::trim` takes white space, and only white space, off both ends: the
/// result is a contiguous part of `s` with nothing but white space before
/// and after it, and it neither starts nor ends with white space. The ASCII
/// white space characters (tab, line feed, vertical tab, form feed,
/// carriage return, space) and the Unicode spaces U+0085, U+00A0 and
/// U+3000 are white space; ASCII letters and digits are not.
pub proof fn law_trim(s: Seq<char>)
    ensures
        exists|i: int, j: int|
            0 <= i <= j <= s.len() && trim(s) == s.subrange(i, j) && (forall|k: int|
                0 <= k < i ==> is_space(#[trigger] s[k])) && (forall|k: int|
                j <= k < s.len() ==> is_space(#[trigger] s[k])),
        trim(s).len() > 0 ==> !is_space(trim(s)[0]) && !is_space(trim(s).last()),
        is_space('\t') && is_space('\n') && is_space('\u{0B}') && is_space('\u{0C}') && is_space('\r')
            && is_space(' '),
        is_space('\u{85}') && is_space('\u{A0}') && is_space('\u{3000}'),
        forall|c: char|
            ('a' <= c <= 'z' || 'A' <= c <= 'Z' || '0' <= c <= '9') ==> !is_space(c),
{
    let i = lemma_trim_start_at(s);
    let t = s.subrange(i, s.len() as int);
    let j = lemma_trim_end_at(t);
    assert(t.subrange(0, j) =~= s.subrange(i, i + j));
    assert forall|k: int| i + j <= k < s.len() implies is_space(#[trigger] s[k]) by {
        assert(s[k] == t[k - i]);
    }
    if j > 0 {
        assert(trim(s)[0] == s[i]);
        assert(trim(s).last() == t[j - 1]);
    }
    assert(0 <= i <= i + j <= s.len() && trim(s) == s.subrange(i, i + j));
}

/// The indices `lo <= hi` such that `v[lo..hi]` is the trimmed text.
pub fn trim_bounds(v: &Vec<char>) -> (r: (usize, usize))
    ensures
        r.0 <= r.1 <= v@.len(),
        v@.subrange(r.0 as int, r.1 as int) == trim(v@),
{
    let n = v.len();
    let mut lo: usize = 0;
    assert(v@.subrange(0, n as int) =~= v@);
    while lo < n && is_whitespace(v[lo])
        invariant
            lo <= n == v@.len(),
            trim_start(v@) == trim_start(v@.subrange(lo as int, n as int)),
        decreases n - lo,
    {
        assert(v@.subrange(lo as int, n as int).drop_first() =~= v@.subrange(lo + 1, n as int));
        lo = lo + 1;
    }
    assert(trim_start(v@.subrange(lo as int, n as int)) == v@.subrange(lo as int, n as int));
    let mut hi: usize = n;
    while hi > lo && is_whitespace(v[hi - 1])
        invariant
            lo <= hi <= n == v@.len(),
            trim(v@) == trim_end(v@.subrange(lo as int, hi as int)),
        decreases hi,
    {
        assert(v@.subrange(lo as int, hi as int).drop_last() =~= v@.subrange(lo as int, hi - 1));
        hi = hi - 1;
    }
    (lo, hi)
}

/// `str::trim` as a new string.
pub fn trimmed(s: &str) -> (t: String)
    ensures
        t@ == trim(s@),
{
    let v = chars_of(s);
    let (lo, hi) = trim_bounds(&v);
    string_of(&v, lo, hi)
}

/// The pieces of `s` between white space, empty pieces dropped
/// (`str::split_whitespace`).
pub open spec fn words(s: Seq<char>) -> Seq<Seq<char>>
    decreases s.len(),
{
    if s.len() == 0 {
        seq![]
    } else if is_space(s.last()) {
        words(s.drop_last())
    } else if s.len() >= 2 && !is_space(s[s.len() - 2]) {
        let w = words(s.drop_last());
        w.update(w.len() - 1, w.last().push(s.last()))
    } else {
        words(s.drop_last()).push(seq![s.last()])
    }
}

proof fn lemma_words_nonspace_end(s: Seq<char>)
    requires
        s.len() > 0,
        !is_space(s.last()),
    ensures
        words(s).len() > 0,
    decreases s.len(),
{
    if s.len() >= 2 && !is_space(s[s.len() - 2]) {
        lemma_words_nonspace_end(s.drop_last());
    }
}

/// `split_whitespace` splits at white space and nowhere else: a string
/// without white space is one word (none if it is empty), a string of white
/// space alone has none, and a white space character between two strings
/// splits them, `a`, space, `b` giving the words of `a` followed by those
/// of `b`.
pub proof fn law_words(a: Seq<char>, sp: char, b: Seq<char>)
    requires
        is_space(sp),
    ensures
        (forall|i: int| 0 <= i < a.len() ==> !is_space(#[trigger] a[i])) ==> words(a) == (if a.len() == 0 {
            Seq::<Seq<char>>::empty()
        } else {
            seq![a]
        }),
        (forall|i: int| 0 <= i < a.len() ==> is_space(#[trigger] a[i])) ==> words(a).len() == 0,
        words(a.push(sp) + b) == words(a) + words(b),
    decreases b.len(),
{
    lemma_words_of_word(a);
    lemma_words_of_space(a);
    let s = a.push(sp) + b;
    if b.len() == 0 {
        assert(s =~= a.push(sp));
        assert(s.drop_last() =~= a);
        assert(words(b) =~= Seq::<Seq<char>>::empty());
        assert(words(a) + words(b) =~= words(a));
    } else {
        let b1 = b.drop_last();
        let c = b.last();
        law_words(a, sp, b1);
        assert(s.drop_last() =~= a.push(sp) + b1);
        assert(s.last() == c);
        if is_space(c) {
        } else if b.len() >= 2 && !is_space(b[b.len() - 2]) {
            assert(s[s.len() - 2] == b[b.len() - 2]);
            lemma_words_nonspace_end(b1);
            let wb = words(b1);
            assert(words(a) + wb.update(wb.len() - 1, wb.last().push(c)) =~= (words(a) + wb).update(
                (words(a) + wb).len() - 1,
                (words(a) + wb).last().push(c),
            ));
        } else {
            if b.len() >= 2 {
                assert(s[s.len() - 2] == b[b.len() - 2]);
            } else {
                assert(s[s.len() - 2] == sp);
            }
            assert(words(a) + words(b1).push(seq![c]) =~= (words(a) + words(b1)).push(seq![c]));
        }
    }
}

proof fn lemma_words_of_word(a: Seq<char>)
    ensures
        (forall|i: int| 0 <= i < a.len() ==> !is_space(#[trigger] a[i])) ==> words(a) == (if a.len() == 0 {
            Seq::<Seq<char>>::empty()
        } else {
            seq![a]
        }),
    decreases a.len(),
{
    if a.len() > 0 && (forall|i: int| 0 <= i < a.len() ==> !is_space(#[trigger] a[i])) {
        let a1 = a.drop_last();
        assert forall|i: int| 0 <= i < a1.len() implies !is_space(#[trigger] a1[i]) by {
            assert(a1[i] == a[i]);
        }
        lemma_words_of_word(a1);
        assert(!is_space(a.last()));
        if a.len() >= 2 {
            assert(!is_space(a[a.len() - 2]));
            assert(a1.push(a.last()) =~= a);
            assert(seq![a1].update(0, a1.push(a.last())) =~= seq![a]);
        } else {
            assert(seq![a.last()] =~= a);
            assert(Seq::<Seq<char>>::empty().push(seq![a.last()]) =~= seq![a]);
        }
    }
}

proof fn lemma_words_of_space(a: Seq<char>)
    ensures
        (forall|i: int| 0 <= i < a.len() ==> is_space(#[trigger] a[i])) ==> words(a).len() == 0,
    decreases a.len(),
{
    if a.len() > 0 && (forall|i: int| 0 <= i < a.len() ==> is_space(#[trigger] a[i])) {
        let a1 = a.drop_last();
        assert forall|i: int| 0 <= i < a1.len() implies is_space(#[trigger] a1[i]) by {
            assert(a1[i] == a[i]);
        }
        lemma_words_of_space(a1);
        assert(is_space(a.last()));
    }
}

/// The views of a vector of strings.
pub open spec fn views(v: Seq<String>) -> Seq<Seq<char>> {
    v.map_values(|w: String| w@)
}

/// `str::split_whitespace`, collected.
pub fn split_words(v: &Vec<char>) -> (r: Vec<String>)
    ensures
        views(r@) == words(v@),
{
    let n = v.len();
    let mut acc: Vec<String> = Vec::new();
    let mut cur = String::new();
    let mut in_word = false;
    let mut i: usize = 0;
    while i < n
        invariant
            i <= n == v@.len(),
            in_word ==> i > 0 && !is_space(v@[i - 1]),
            !in_word ==> i == 0 || is_space(v@[i - 1]),
            in_word ==> words(v@.take(i as int)) == views(acc@).push(cur@),
            !in_word ==> words(v@.take(i as int)) == views(acc@),
            !in_word ==> cur@.len() == 0,
        decreases n - i,
    {
        let c = v[i];
        let ghost t = v@.take(i + 1);
        assert(t.drop_last() =~= v@.take(i as int));
        if is_whitespace(c) {
            if in_word {
                acc.push(cur);
                cur = String::new();
                assert(views(acc@) =~= words(v@.take(i as int)));
            }
            in_word = false;
        } else {
            push_char(&mut cur, c);
            if in_word {
                assert(views(acc@).push(cur@) =~= words(t));
            } else {
                assert(cur@ =~= seq![c]);
                assert(views(acc@).push(cur@) =~= words(t));
            }
            in_word = true;
        }
        i = i + 1;
    }
    assert(v@.take(n as int) =~= v@);
    if in_word {
        acc.push(cur);
    }
    assert(views(acc@) =~= words(v@));
    acc
}

/// The pieces of `s` between `'\n'` characters; one more piece than there
/// are newlines.
pub open spec fn nl_pieces(s: Seq<char>) -> Seq<Seq<char>>
    decreases s.len(),
{
    if s.len() == 0 {
        seq![seq![]]
    } else if s.last() == '\n' {
        nl_pieces(s.drop_last()).push(seq![])
    } else {
        let p = nl_pieces(s.drop_last());
        p.update(p.len() - 1, p.last().push(s.last()))
    }
}

/// A piece without one trailing `'\r'`.
pub open spec fn strip_cr(p: Seq<char>) -> Seq<char> {
    if p.len() > 0 && p.last() == '\r' {
        p.drop_last()
    } else {
        p
    }
}

/// The lines of `s` (`str::lines`): pieces between `'\n'`, a `'\r'` just
/// before a `'\n'` removed, and no final empty line after a trailing `'\n'`.
pub open spec fn lines(s: Seq<char>) -> Seq<Seq<char>> {
    let p = nl_pieces(s);
    let n = p.len();
    let count: int = if p[n - 1].len() == 0 { n - 1 } else { n as int };
    Seq::new(count as nat, |i: int| if i < n - 1 { strip_cr(p[i]) } else { p[i] })
}

proof fn lemma_nl_pieces_nonempty(s: Seq<char>)
    ensures
        nl_pieces(s).len() >= 1,
    decreases s.len(),
{
    if s.len() > 0 {
        lemma_nl_pieces_nonempty(s.drop_last());
    }
}

proof fn lemma_nl_pieces_of_line(a: Seq<char>)
    requires
        forall|i: int| 0 <= i < a.len() ==> #[trigger] a[i] != '\n',
    ensures
        nl_pieces(a) == seq![a],
    decreases a.len(),
{
    if a.len() > 0 {
        let a1 = a.drop_last();
        assert forall|i: int| 0 <= i < a1.len() implies #[trigger] a1[i] != '\n' by {
            assert(a1[i] == a[i]);
        }
        lemma_nl_pieces_of_line(a1);
        assert(a1.push(a.last()) =~= a);
        assert(seq![a1].update(0, a1.push(a.last())) =~= seq![a]);
    } else {
        assert(a =~= Seq::<char>::empty());
    }
}

proof fn lemma_nl_pieces_split(a: Seq<char>, b: Seq<char>)
    requires
        forall|i: int| 0 <= i < a.len() ==> #[trigger] a[i] != '\n',
    ensures
        nl_pieces(a.push('\n') + b) == seq![a] + nl_pieces(b),
    decreases b.len(),
{
    let s = a.push('\n') + b;
    if b.len() == 0 {
        assert(s =~= a.push('\n'));
        assert(s.drop_last() =~= a);
        lemma_nl_pieces_of_line(a);
        assert(seq![a].push(Seq::<char>::empty()) =~= seq![a] + nl_pieces(b));
    } else {
        let b1 = b.drop_last();
        lemma_nl_pieces_split(a, b1);
        lemma_nl_pieces_nonempty(b1);
        assert(s.drop_last() =~= a.push('\n') + b1);
        assert(s.last() == b.last());
        let q = nl_pieces(b1);
        if b.last() == '\n' {
            assert((seq![a] + q).push(Seq::<char>::empty()) =~= seq![a] + q.push(Seq::<char>::empty()));
        } else {
            assert((seq![a] + q).update((seq![a] + q).len() - 1, (seq![a] + q).last().push(b.last()))
                =~= seq![a] + q.update(q.len() - 1, q.last().push(b.last())));
        }
    }
}

/// `str::lines` splits at line feeds and nowhere else: a string without a
/// line feed is one line (none if it is empty), and a line feed after a
/// first line `a` gives `a`, without one carriage return just before the
/// line feed, followed by the lines of the rest.
pub proof fn law_lines(a: Seq<char>, b: Seq<char>)
    requires
        forall|i: int| 0 <= i < a.len() ==> #[trigger] a[i] != '\n',
    ensures
        lines(a) == (if a.len() == 0 {
            Seq::<Seq<char>>::empty()
        } else {
            seq![a]
        }),
        lines(a.push('\n') + b) == seq![
            if a.len() > 0 && a.last() == '\r' {
                a.drop_last()
            } else {
                a
            },
        ] + lines(b),
{
    lemma_nl_pieces_of_line(a);
    assert(lines(a) =~= (if a.len() == 0 {
        Seq::<Seq<char>>::empty()
    } else {
        seq![a]
    }));
    lemma_nl_pieces_split(a, b);
    lemma_nl_pieces_nonempty(b);
    let first = if a.len() > 0 && a.last() == '\r' { a.drop_last() } else { a };
    assert(strip_cr(a) == first);
    let p = nl_pieces(a.push('\n') + b);
    let q = nl_pieces(b);
    assert(p.len() == q.len() + 1);
    assert(p[p.len() - 1] == q[q.len() - 1]);
    assert forall|i: int| 0 <= i < lines(a.push('\n') + b).len() implies #[trigger] lines(
        a.push('\n') + b,
    )[i] == (seq![first] + lines(b))[i] by {
        if i > 0 {
            assert(p[i] == q[i - 1]);
        }
    }
    assert(lines(a.push('\n') + b) =~= seq![first] + lines(b));
}

/// `str::lines`, collected.
pub fn split_lines(v: &Vec<char>) -> (r: Vec<String>)
    ensures
        views(r@) == lines(v@),
{
    let n = v.len();
    let mut acc: Vec<String> = Vec::new();
    let mut start: usize = 0;
    let ghost mut raw: Seq<Seq<char>> = seq![];
    let mut i: usize = 0;
    assert(v@.take(0) =~= Seq::<char>::empty());
    assert(raw.push(v@.subrange(0, 0)) =~= seq![seq![]]);
    while i < n
        invariant
            start <= i <= n == v@.len(),
            nl_pieces(v@.take(i as int)) == raw.push(v@.subrange(start as int, i as int)),
            views(acc@) == raw.map_values(|p: Seq<char>| strip_cr(p)),
        decreases n - i,
    {
        let c = v[i];
        assert(v@.take(i + 1).drop_last() =~= v@.take(i as int));
        if c == '\n' {
            let ghost cur = v@.subrange(start as int, i as int);
            let end = if i > start && v[i - 1] == '\r' { i - 1 } else { i };
            let line = string_of(v, start, end);
            let ghost old_raw = raw;
            let ghost old_acc = acc@;
            proof {
                raw = raw.push(cur);
            }
            assert(line@ =~= strip_cr(cur));
            acc.push(line);
            start = i + 1;
            assert(acc@ =~= old_acc.push(line));
            assert(views(acc@) =~= views(old_acc).push(line@));
            assert(raw.map_values(|p: Seq<char>| strip_cr(p)) =~= old_raw.map_values(
                |p: Seq<char>| strip_cr(p),
            ).push(strip_cr(cur)));
            assert(v@.subrange(start as int, i + 1) =~= Seq::<char>::empty());
            assert(nl_pieces(v@.take(i + 1)) =~= raw.push(v@.subrange(start as int, i + 1)));
        } else {
            assert(v@.take(i + 1).last() == c);
            assert(v@.subrange(start as int, i + 1) =~= v@.subrange(start as int, i as int).push(c));
            let ghost p0 = raw.push(v@.subrange(start as int, i as int));
            assert(p0.update(p0.len() - 1, p0.last().push(c)) =~= raw.push(
                v@.subrange(start as int, i + 1),
            ));
            assert(nl_pieces(v@.take(i + 1)) =~= raw.push(v@.subrange(start as int, i + 1)));
        }
        i = i + 1;
    }
    assert(v@.take(n as int) =~= v@);
    let ghost tail = v@.subrange(start as int, n as int);
    let ghost p = nl_pieces(v@);
    assert(p == raw.push(tail));
    let ghost before = acc@;
    if start < n {
        acc.push(string_of(v, start, n));
        assert(views(acc@) =~= views(before).push(tail));
    }
    assert(views(acc@) =~= lines(v@));
    acc
}

} // verus!
