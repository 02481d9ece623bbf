//! Character-level helpers shared by the exporter and the stored-file guard.

use vstd::prelude::*;

verus! {

/// `String::push` appends exactly one character to the end of the string.
pub assume_specification[ String::push ](s: &mut String, c: char)
    ensures
        final(s)@ == old(s)@.push(c),
;

/// The characters of `s`, in order.
pub fn chars_of(s: &str) -> (res: Vec<char>)
    ensures
        res@ == s@,
{
    let mut out: Vec<char> = Vec::new();
    let it0 = s.chars();
    for c in it: it0
        invariant
            out@ == it.seq().take(it.index()),
            it.seq() == s@,
    {
        out.push(c);
    }
    out
}

/// A string holding the characters `cs[from..to]`.
pub fn string_of(cs: &Vec<char>, from: usize, to: usize) -> (res: String)
    requires
        from <= to <= cs.len(),
    ensures
        res@ == cs@.subrange(from as int, to as int),
{
    let mut out = String::new();
    let mut i: usize = from;
    while i < to
        invariant
            from <= i <= to <= cs.len(),
            out@ == cs@.subrange(from as int, i as int),
        decreases to - i,
    {
        out.push(cs[i]);
        i += 1;
    }
    out
}

/// Whether `c` is one of the Unicode `White_Space` code points.
pub open spec fn is_white_space(c: char) -> bool {
    let n = c as u32;
    ||| 0x09 <= n <= 0x0D
    ||| n == 0x20
    ||| n == 0x85
    ||| n == 0xA0
    ||| n == 0x1680
    ||| 0x2000 <= n <= 0x200A
    ||| n == 0x2028
    ||| n == 0x2029
    ||| n == 0x202F
    ||| n == 0x205F
    ||| n == 0x3000
}

/// What is stripped from the two ends of a text: white space, or one given character.
#[derive(Clone, Copy, Debug)]
pub enum Margin {
    WhiteSpace,
    Char(char),
}

impl Margin {
    /// Whether `c` belongs to the margin.
    pub open spec fn covers(self, c: char) -> bool {
        match self {
            Margin::WhiteSpace => is_white_space(c),
            Margin::Char(m) => c == m,
        }
    }

    /// Whether `c` belongs to the margin.
    pub fn has(&self, c: char) -> (b: bool)
        ensures
            b == self.covers(c),
    {
        match self {
            Margin::WhiteSpace => is_whitespace(c),
            Margin::Char(m) => c == *m,
        }
    }
}

/// A text is blank when it holds nothing but white space; the empty text is blank.
pub open spec fn blank(s: Seq<char>) -> bool {
    forall|i: int| 0 <= i < s.len() ==> is_white_space(#[trigger] s[i])
}

/// `s` without the longest prefix made of margin characters.
pub open spec fn strip_start(s: Seq<char>, margin: Margin) -> Seq<char>
    decreases s.len(),
{
    if s.len() > 0 && margin.covers(s.first()) {
        strip_start(s.drop_first(), margin)
    } else {
        s
    }
}

/// `s` without the longest suffix made of margin characters.
pub open spec fn strip_end(s: Seq<char>, margin: Margin) -> Seq<char>
    decreases s.len(),
{
    if s.len() > 0 && margin.covers(s.last()) {
        strip_end(s.drop_last(), margin)
    } else {
        s
    }
}

/// `s` without margin characters at either end.
pub open spec fn stripped(s: Seq<char>, margin: Margin) -> Seq<char> {
    strip_end(strip_start(s, margin), margin)
}

/// `s` without its leading and trailing white space.
pub open spec fn trimmed(s: Seq<char>) -> Seq<char> {
    stripped(s, Margin::WhiteSpace)
}

/// The decimal digit for `d`, which is below ten.
pub open spec fn digit(d: nat) -> char {
    (48 + d) as u8 as char
}

/// The decimal numeral of `n`, without leading zeros.
pub open spec fn decimal(n: nat) -> Seq<char>
    decreases n,
{
    if n < 10 {
        seq![digit(n)]
    } else {
        decimal(n / 10).push(digit(n % 10))
    }
}

/// Stripping the front removes exactly the first `k` characters, where `k` is
/// the position of the first character outside the margin.
pub proof fn lemma_strip_start(s: Seq<char>, margin: Margin, k: int)
    requires
        0 <= k <= s.len(),
        forall|i: int| 0 <= i < k ==> margin.covers(#[trigger] s[i]),
        k < s.len() ==> !margin.covers(s[k]),
    ensures
        strip_start(s, margin) == s.skip(k),
    decreases k,
{
    if k == 0 {
        assert(s.skip(0) =~= s);
    } else {
        let rest = s.drop_first();
        assert forall|i: int| 0 <= i < k - 1 implies margin.covers(#[trigger] rest[i]) by {
            assert(rest[i] == s[i + 1]);
        }
        lemma_strip_start(rest, margin, k - 1);
        assert(rest.skip(k - 1) =~= s.skip(k));
    }
}

/// Stripping the back keeps exactly the first `k` characters, where `k` is one
/// past the position of the last character outside the margin.
pub proof fn lemma_strip_end(s: Seq<char>, margin: Margin, k: int)
    requires
        0 <= k <= s.len(),
        forall|i: int| k <= i < s.len() ==> margin.covers(#[trigger] s[i]),
        0 < k ==> !margin.covers(s[k - 1]),
    ensures
        strip_end(s, margin) == s.take(k),
    decreases s.len() - k,
{
    if k == s.len() {
        assert(s.take(k) =~= s);
    } else {
        let rest = s.drop_last();
        lemma_strip_end(rest, margin, k);
        assert(rest.take(k) =~= s.take(k));
    }
}

/// A text is blank exactly when trimming leaves nothing of it.
pub proof fn lemma_blank_iff_trimmed_empty(s: Seq<char>)
    ensures
        blank(s) <==> trimmed(s).len() == 0,
    decreases s.len(),
{
    let m = Margin::WhiteSpace;
    if s.len() == 0 {
    } else if is_white_space(s.first()) {
        let rest = s.drop_first();
        lemma_blank_iff_trimmed_empty(rest);
        if blank(s) {
            assert forall|i: int| 0 <= i < rest.len() implies is_white_space(
                #[trigger] rest[i],
            ) by {
                assert(rest[i] == s[i + 1]);
            }
        }
        if blank(rest) {
            assert forall|i: int| 0 <= i < s.len() implies is_white_space(#[trigger] s[i]) by {
                if i > 0 {
                    assert(s[i] == rest[i - 1]);
                }
            }
        }
    } else {
        assert(!blank(s));
        lemma_strip_end_keeps_first(s, m);
    }
}

/// Stripping the back never removes a first character that lies outside the margin.
pub proof fn lemma_strip_end_keeps_first(s: Seq<char>, margin: Margin)
    requires
        s.len() > 0,
        !margin.covers(s.first()),
    ensures
        strip_end(s, margin).len() > 0,
        strip_end(s, margin).first() == s.first(),
    decreases s.len(),
{
    if margin.covers(s.last()) {
        assert(s.len() > 1);
        lemma_strip_end_keeps_first(s.drop_last(), margin);
    }
}

/// What stripping the front leaves is empty or begins outside the margin.
pub proof fn lemma_strip_start_begins_outside(s: Seq<char>, margin: Margin)
    ensures
        strip_start(s, margin).len() > 0 ==> !margin.covers(strip_start(s, margin).first()),
    decreases s.len(),
{
    if s.len() > 0 && margin.covers(s.first()) {
        lemma_strip_start_begins_outside(s.drop_first(), margin);
    }
}

/// What stripping the back leaves is empty or ends outside the margin.
pub proof fn lemma_strip_end_ends_outside(s: Seq<char>, margin: Margin)
    ensures
        strip_end(s, margin).len() > 0 ==> !margin.covers(strip_end(s, margin).last()),
    decreases s.len(),
{
    if s.len() > 0 && margin.covers(s.last()) {
        lemma_strip_end_ends_outside(s.drop_last(), margin);
    }
}

/// A stripped text is empty, or it begins and ends outside the margin.
pub proof fn lemma_stripped_ends(s: Seq<char>, margin: Margin)
    ensures
        stripped(s, margin).len() > 0 ==> {
            &&& !margin.covers(stripped(s, margin).first())
            &&& !margin.covers(stripped(s, margin).last())
        },
{
    let front = strip_start(s, margin);
    lemma_strip_start_begins_outside(s, margin);
    lemma_strip_end_ends_outside(front, margin);
    if front.len() > 0 {
        lemma_strip_end_keeps_first(front, margin);
    }
}

/// Every character of a decimal numeral is a digit.
pub open spec fn is_digit(c: char) -> bool {
    '0' <= c <= '9'
}

/// A decimal numeral is made of digits, at least one, and at least two from
/// ten on; but for zero it does not begin with `0`.
pub proof fn lemma_decimal_shape(n: nat)
    ensures
        decimal(n).len() >= 1,
        n >= 10 ==> decimal(n).len() >= 2,
        n > 0 ==> decimal(n).first() != '0',
        forall|i: int| 0 <= i < decimal(n).len() ==> is_digit(#[trigger] decimal(n)[i]),
    decreases n,
{
    if n >= 10 {
        lemma_decimal_shape(n / 10);
        let front = decimal(n / 10);
        assert(decimal(n).first() == front.first());
        assert forall|i: int| 0 <= i < decimal(n).len() implies is_digit(
            #[trigger] decimal(n)[i],
        ) by {
            if i < front.len() {
                assert(decimal(n)[i] == front[i]);
            }
        }
    }
}

/// Two numbers with the same decimal numeral are the same number.
pub proof fn lemma_decimal_injective(a: nat, b: nat)
    requires
        decimal(a) == decimal(b),
    ensures
        a == b,
    decreases a,
{
    lemma_decimal_shape(a);
    lemma_decimal_shape(b);
    if a >= 10 && b >= 10 {
        let x = decimal(a / 10);
        let y = decimal(b / 10);
        assert(x =~= decimal(a).drop_last());
        assert(y =~= decimal(b).drop_last());
        assert(decimal(a).last() == digit(a % 10));
        assert(decimal(b).last() == digit(b % 10));
        lemma_decimal_injective(a / 10, b / 10);
    } else if a < 10 && b < 10 {
        assert(decimal(a)[0] == digit(a));
        assert(decimal(b)[0] == digit(b));
    }
}

/// Whether `c` is white space.
pub fn is_whitespace(c: char) -> (b: bool)
    ensures
        b == is_white_space(c),
{
    let n: u32 = c as u32;
    (0x09 <= n && n <= 0x0D) || n == 0x20 || n == 0x85 || n == 0xA0 || n == 0x1680 || (0x2000 <= n
        && n <= 0x200A) || n == 0x2028 || n == 0x2029 || n == 0x202F || n == 0x205F || n == 0x3000
}

/// Whether `s` is blank.
pub fn is_blank(s: &str) -> (b: bool)
    ensures
        b == blank(s@),
{
    let cs = chars_of(s);
    let mut i: usize = 0;
    while i < cs.len()
        invariant
            i <= cs.len(),
            cs@ == s@,
            forall|j: int| 0 <= j < i ==> is_white_space(#[trigger] cs@[j]),
        decreases cs.len() - i,
    {
        if !is_whitespace(cs[i]) {
            assert(!is_white_space(s@[i as int]));
            return false;
        }
        i += 1;
    }
    true
}

/// `s` without margin characters at either end.
pub fn strip(s: &str, margin: Margin) -> (res: String)
    ensures
        res@ == stripped(s@, margin),
{
    let cs = chars_of(s);
    let mut from: usize = 0;
    while from < cs.len() && margin.has(cs[from])
        invariant
            from <= cs.len(),
            forall|j: int| 0 <= j < from ==> margin.covers(#[trigger] cs@[j]),
        decreases cs.len() - from,
    {
        from += 1;
    }
    let mut to: usize = cs.len();
    while from < to && margin.has(cs[to - 1])
        invariant
            from <= to <= cs.len(),
            forall|j: int| to <= j < cs.len() ==> margin.covers(#[trigger] cs@[j]),
        decreases to - from,
    {
        to -= 1;
    }
    proof {
        let front = cs@.skip(from as int);
        lemma_strip_start(cs@, margin, from as int);
        assert forall|j: int| to - from <= j < front.len() implies margin.covers(
            #[trigger] front[j],
        ) by {
            assert(front[j] == cs@[j + from]);
        }
        lemma_strip_end(front, margin, to - from);
        assert(front.take(to - from) =~= cs@.subrange(from as int, to as int));
    }
    string_of(&cs, from, to)
}

/// `s` without its leading and trailing white space.
pub fn trim(s: &str) -> (res: String)
    ensures
        res@ == trimmed(s@),
{
    strip(s, Margin::WhiteSpace)
}

/// The character of the decimal digit `d`.
pub fn digit_char(d: u8) -> (c: char)
    requires
        d < 10,
    ensures
        c == digit(d as nat),
{
    (48u8 + d) as char
}

/// The decimal numeral of `n`.
pub fn decimal_string(n: usize) -> (res: String)
    ensures
        res@ == decimal(n as nat),
    decreases n,
{
    if n < 10 {
        let mut out = String::new();
        out.push(digit_char(n as u8));
        out
    } else {
        let mut out = decimal_string(n / 10);
        out.push(digit_char((n % 10) as u8));
        out
    }
}

} // verus!
