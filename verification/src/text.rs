//! Character-level helpers shared by the other modules.
//!
//! Strings are viewed as sequences of characters. The functions here move
//! between `&str`/`String` and `Vec<char>`, compare and scan texts, read and
//! write decimal numbers, and replace and trim.
use vstd::prelude::*;
use vstd::string::*;

verus! {

/// `String::push` appends exactly one character to the end of the string.
pub assume_specification[ String::push ](s: &mut String, c: char)
    ensures
        final(s)@ == old(s)@.push(c),
;

/// The characters of `s`, in order.
pub fn chars_of(s: &str) -> (r: Vec<char>)
    ensures
        r@ == s@,
{
    let n: usize = s.unicode_len();
    let mut v: Vec<char> = Vec::new();
    let mut i: usize = 0;
    while i < n
        invariant
            i <= n,
            n == s@.len(),
            v@ == s@.subrange(0, i as int),
        decreases n - i,
    {
        let c = s.get_char(i);
        v.push(c);
        i += 1;
        assert(v@ =~= s@.subrange(0, i as int));
    }
    assert(s@.subrange(0, n as int) =~= s@);
    v
}

/// The string made of the characters of `v`, in order.
pub fn string_of(v: &Vec<char>) -> (r: String)
    ensures
        r@ == v@,
{
    let mut s = String::new();
    let mut i: usize = 0;
    while i < v.len()
        invariant
            i <= v.len(),
            s@ == v@.subrange(0, i as int),
        decreases v.len() - i,
    {
        s.push(v[i]);
        i += 1;
        assert(s@ =~= v@.subrange(0, i as int));
    }
    assert(v@.subrange(0, v.len() as int) =~= v@);
    s
}

/// Whether two character vectors hold the same characters.
pub fn chars_eq(a: &Vec<char>, b: &Vec<char>) -> (r: bool)
    ensures
        r == (a@ == b@),
{
    if a.len() != b.len() {
        return false;
    }
    let mut i: usize = 0;
    while i < a.len()
        invariant
            i <= a.len(),
            a.len() == b.len(),
            forall|j: int| 0 <= j < i ==> a@[j] == b@[j],
        decreases a.len() - i,
    {
        if a[i] != b[i] {
            return false;
        }
        i += 1;
    }
    assert(a@ =~= b@);
    true
}

/// Whether two strings hold the same characters.
pub fn str_eq(a: &str, b: &str) -> (r: bool)
    ensures
        r == (a@ == b@),
{
    let x = chars_of(a);
    let y = chars_of(b);
    chars_eq(&x, &y)
}

/// Appends the characters of `s` to `out`.
pub fn push_str_chars(out: &mut Vec<char>, s: &str)
    ensures
        final(out)@ == old(out)@ + s@,
{
    let n: usize = s.unicode_len();
    let mut i: usize = 0;
    while i < n
        invariant
            i <= n,
            n == s@.len(),
            out@ == old(out)@ + s@.subrange(0, i as int),
        decreases n - i,
    {
        let c = s.get_char(i);
        out.push(c);
        i += 1;
        assert(out@ =~= old(out)@ + s@.subrange(0, i as int));
    }
    assert(s@.subrange(0, n as int) =~= s@);
}

/// The decimal digits of `n`, most significant first, without leading zeros.
pub open spec fn decimal(n: nat) -> Seq<char>
    decreases n,
{
    if n < 10 {
        seq![digit_char(n)]
    } else {
        decimal(n / 10).push(digit_char(n % 10))
    }
}

/// The character of a decimal digit.
pub open spec fn digit_char(d: nat) -> char {
    if d == 0 {
        '0'
    } else if d == 1 {
        '1'
    } else if d == 2 {
        '2'
    } else if d == 3 {
        '3'
    } else if d == 4 {
        '4'
    } else if d == 5 {
        '5'
    } else if d == 6 {
        '6'
    } else if d == 7 {
        '7'
    } else if d == 8 {
        '8'
    } else {
        '9'
    }
}

fn digit_of(d: u64) -> (c: char)
    requires
        d < 10,
    ensures
        c == digit_char(d as nat),
{
    if d == 0 {
        '0'
    } else if d == 1 {
        '1'
    } else if d == 2 {
        '2'
    } else if d == 3 {
        '3'
    } else if d == 4 {
        '4'
    } else if d == 5 {
        '5'
    } else if d == 6 {
        '6'
    } else if d == 7 {
        '7'
    } else if d == 8 {
        '8'
    } else {
        '9'
    }
}

/// The decimal digits of `n`.
pub fn decimal_of(n: u64) -> (r: Vec<char>)
    ensures
        r@ == decimal(n as nat),
    decreases n,
{
    if n < 10 {
        let mut v: Vec<char> = Vec::new();
        v.push(digit_of(n));
        assert(v@ =~= seq![digit_char(n as nat)]);
        v
    } else {
        let mut v = decimal_of(n / 10);
        v.push(digit_of(n % 10));
        v
    }
}

/// The value of a decimal digit character, if it is one.
pub open spec fn digit_value(c: char) -> Option<nat> {
    if c == '0' {
        Some(0)
    } else if c == '1' {
        Some(1)
    } else if c == '2' {
        Some(2)
    } else if c == '3' {
        Some(3)
    } else if c == '4' {
        Some(4)
    } else if c == '5' {
        Some(5)
    } else if c == '6' {
        Some(6)
    } else if c == '7' {
        Some(7)
    } else if c == '8' {
        Some(8)
    } else if c == '9' {
        Some(9)
    } else {
        None
    }
}

fn value_of_digit(c: char) -> (r: Option<u64>)
    ensures
        match r {
            Some(d) => digit_value(c) == Some(d as nat) && d < 10,
            None => digit_value(c) is None,
        },
{
    if c == '0' {
        Some(0)
    } else if c == '1' {
        Some(1)
    } else if c == '2' {
        Some(2)
    } else if c == '3' {
        Some(3)
    } else if c == '4' {
        Some(4)
    } else if c == '5' {
        Some(5)
    } else if c == '6' {
        Some(6)
    } else if c == '7' {
        Some(7)
    } else if c == '8' {
        Some(8)
    } else if c == '9' {
        Some(9)
    } else {
        None
    }
}

/// The number that a run of decimal digits denotes; `None` if a character is
/// no digit. The empty run denotes 0.
pub open spec fn digits_value(s: Seq<char>) -> Option<nat>
    decreases s.len(),
{
    if s.len() == 0 {
        Some(0)
    } else {
        match (digits_value(s.drop_last()), digit_value(s.last())) {
            (Some(hi), Some(d)) => Some(hi * 10 + d),
            _ => None,
        }
    }
}

/// The `u64` that a string denotes in decimal: one or more digits, after an
/// optional `+`, whose value fits in 64 bits.
pub open spec fn parse_decimal_spec(s: Seq<char>) -> Option<u64> {
    let digits = if s.len() > 0 && s[0] == '+' {
        s.skip(1)
    } else {
        s
    };
    if digits.len() == 0 {
        None
    } else {
        match digits_value(digits) {
            Some(n) => if n <= u64::MAX {
                Some(n as u64)
            } else {
                None
            },
            None => None,
        }
    }
}

/// Once a prefix of a digit run exceeds `bound`, so does the whole run.
proof fn lemma_digits_grow(s: Seq<char>, k: int, bound: nat)
    requires
        0 <= k <= s.len(),
        digits_value(s.take(k)) is Some,
        digits_value(s.take(k))->0 > bound,
    ensures
        digits_value(s) is Some ==> digits_value(s)->0 > bound,
    decreases s.len() - k,
{
    if k == s.len() {
        assert(s.take(k) =~= s);
    } else {
        assert(s.take(k + 1).drop_last() =~= s.take(k));
        if digits_value(s.take(k + 1)) is Some {
            lemma_digits_grow(s, k + 1, bound);
        } else {
            lemma_digits_none(s, k + 1);
        }
    }
}

/// A digit run with an invalid prefix is invalid.
proof fn lemma_digits_none(s: Seq<char>, k: int)
    requires
        0 <= k <= s.len(),
        digits_value(s.take(k)) is None,
    ensures
        digits_value(s) is None,
    decreases s.len() - k,
{
    if k == s.len() {
        assert(s.take(k) =~= s);
    } else {
        assert(s.take(k + 1).drop_last() =~= s.take(k));
        lemma_digits_none(s, k + 1);
    }
}

/// Reads a `u64` written in decimal.
pub fn parse_decimal(v: &Vec<char>) -> (r: Option<u64>)
    ensures
        r == parse_decimal_spec(v@),
{
    let mut start: usize = 0;
    if v.len() > 0 && v[0] == '+' {
        start = 1;
    }
    if start == v.len() {
        return None;
    }
    let ghost digits = v@.skip(start as int);
    assert(v@.skip(0) =~= v@);
    let mut acc: u64 = 0;
    let mut i: usize = start;
    assert(digits.take(0) =~= Seq::<char>::empty());
    while i < v.len()
        invariant
            start <= i <= v.len(),
            start < v.len(),
            digits == v@.skip(start as int),
            digits == if v@.len() > 0 && v@[0] == '+' {
                v@.skip(1)
            } else {
                v@
            },
            digits_value(digits.take(i - start)) == Some(acc as nat),
        decreases v.len() - i,
    {
        proof {
            assert(digits.take(i - start + 1).drop_last() =~= digits.take(i - start));
            assert(digits.take(i - start + 1).last() == v@[i as int]);
        }
        match value_of_digit(v[i]) {
            None => {
                proof {
                    lemma_digits_none(digits, i - start + 1);
                }
                return None;
            },
            Some(d) => {
                if acc > (u64::MAX - d) / 10 {
                    proof {
                        assert(acc as nat * 10 + d as nat > u64::MAX as nat);
                        lemma_digits_grow(digits, i - start + 1, u64::MAX as nat);
                    }
                    return None;
                }
                acc = acc * 10 + d;
            },
        }
        i += 1;
    }
    assert(digits.take(i - start) =~= digits);
    Some(acc)
}

/// Whether a character is white space (the Unicode `White_Space` property).
pub open spec fn is_space(c: char) -> bool {
    let n = c as int;
    ||| 0x09 <= n <= 0x0d
    ||| n == 0x20
    ||| n == 0x85
    ||| n == 0xa0
    ||| n == 0x1680
    ||| 0x2000 <= n <= 0x200a
    ||| n == 0x2028
    ||| n == 0x2029
    ||| n == 0x202f
    ||| n == 0x205f
    ||| n == 0x3000
}

/// What ends a run of characters.
#[derive(Debug, Clone, Copy)]
pub enum Stop {
    /// The given character.
    At(char),
    /// Any white space.
    Space,
    /// Anything but white space.
    Word,
}

impl Stop {
    /// Whether `x` ends a run.
    pub open spec fn hits(self, x: char) -> bool {
        match self {
            Stop::At(c) => x == c,
            Stop::Space => is_space(x),
            Stop::Word => !is_space(x),
        }
    }

    /// Whether `x` ends a run.
    pub fn test(&self, x: char) -> (r: bool)
        ensures
            r == self.hits(x),
    {
        match self {
            Stop::At(c) => x == *c,
            Stop::Space => space(x),
            Stop::Word => !space(x),
        }
    }
}

/// Whether a character is white space.
pub fn space(c: char) -> (r: bool)
    ensures
        r == is_space(c),
{
    let n: u32 = c as u32;
    (0x09 <= n && n <= 0x0d) || n == 0x20 || n == 0x85 || n == 0xa0 || n == 0x1680 || (0x2000 <= n
        && n <= 0x200a) || n == 0x2028 || n == 0x2029 || n == 0x202f || n == 0x205f || n == 0x3000
}

/// The length of the longest prefix of `s` that holds no stopping character.
pub open spec fn run_len(s: Seq<char>, stop: Stop) -> int
    decreases s.len(),
{
    if s.len() == 0 {
        0
    } else if stop.hits(s[0]) {
        0
    } else {
        1 + run_len(s.skip(1), stop)
    }
}

/// A run ends at the first stopping character, or with the text.
pub proof fn lemma_run_len(s: Seq<char>, stop: Stop, i: int)
    requires
        0 <= i <= s.len(),
        forall|j: int| 0 <= j < i ==> !stop.hits(#[trigger] s[j]),
        i == s.len() || stop.hits(s[i]),
    ensures
        run_len(s, stop) == i,
    decreases i,
{
    if i > 0 {
        let t = s.skip(1);
        assert forall|j: int| 0 <= j < i - 1 implies !stop.hits(#[trigger] t[j]) by {
            assert(t[j] == s[j + 1]);
        }
        lemma_run_len(t, stop, i - 1);
    }
}

/// A run is never longer than the text.
pub proof fn lemma_run_len_bounds(s: Seq<char>, stop: Stop)
    ensures
        0 <= run_len(s, stop) <= s.len(),
    decreases s.len(),
{
    if s.len() > 0 && !stop.hits(s[0]) {
        lemma_run_len_bounds(s.skip(1), stop);
    }
}

/// The text before the first `c`, or all of it when it holds none.
pub open spec fn before(s: Seq<char>, c: char) -> Seq<char> {
    s.take(run_len(s, Stop::At(c)))
}

/// The text after the first `c`, if it holds one.
pub open spec fn after(s: Seq<char>, c: char) -> Option<Seq<char>> {
    if run_len(s, Stop::At(c)) < s.len() {
        Some(s.skip(run_len(s, Stop::At(c)) + 1))
    } else {
        None
    }
}

/// The end of the run that starts at `from`.
pub fn run_end(v: &Vec<char>, from: usize, stop: Stop) -> (r: usize)
    requires
        from <= v.len(),
    ensures
        from <= r <= v.len(),
        r - from == run_len(v@.skip(from as int), stop),
{
    let ghost s = v@.skip(from as int);
    let mut i: usize = from;
    while i < v.len() && !stop.test(v[i])
        invariant
            from <= i <= v.len(),
            s == v@.skip(from as int),
            forall|j: int| 0 <= j < i - from ==> !stop.hits(#[trigger] s[j]),
        decreases v.len() - i,
    {
        i += 1;
    }
    proof {
        lemma_run_len(s, stop, i - from);
    }
    i
}

/// The characters of `v` from `from` up to `to`.
pub fn slice_of(v: &Vec<char>, from: usize, to: usize) -> (r: Vec<char>)
    requires
        from <= to <= v.len(),
    ensures
        r@ == v@.subrange(from as int, to as int),
{
    let mut out: Vec<char> = Vec::new();
    let mut i: usize = from;
    while i < to
        invariant
            from <= i <= to,
            to <= v.len(),
            out@ == v@.subrange(from as int, i as int),
        decreases to - i,
    {
        out.push(v[i]);
        i += 1;
        assert(out@ =~= v@.subrange(from as int, i as int));
    }
    out
}

/// The characters before the first `c`.
pub fn take_before(v: &Vec<char>, c: char) -> (r: Vec<char>)
    ensures
        r@ == before(v@, c),
{
    assert(v@.skip(0) =~= v@);
    let n: usize = run_end(v, 0, Stop::At(c));
    let r = slice_of(v, 0, n);
    assert(v@.subrange(0, n as int) =~= v@.take(n as int));
    r
}

/// The characters after the first `c`, if there is one.
pub fn take_after(v: &Vec<char>, c: char) -> (r: Option<Vec<char>>)
    ensures
        match r {
            Some(t) => after(v@, c) == Some(t@),
            None => after(v@, c) is None,
        },
{
    assert(v@.skip(0) =~= v@);
    let n: usize = run_end(v, 0, Stop::At(c));
    if n < v.len() {
        let r = slice_of(v, n + 1, v.len());
        assert(v@.subrange(n + 1, v.len() as int) =~= v@.skip(n + 1));
        Some(r)
    } else {
        None
    }
}

/// The text with every occurrence of `from` replaced by `to`, taken from left
/// to right without overlap. An empty `from` replaces nothing.
pub open spec fn replace_spec(s: Seq<char>, from: Seq<char>, to: Seq<char>) -> Seq<char>
    decreases s.len(),
{
    if from.len() == 0 || s.len() < from.len() {
        s
    } else if s.take(from.len() as int) == from {
        to + replace_spec(s.skip(from.len() as int), from, to)
    } else {
        seq![s[0]] + replace_spec(s.skip(1), from, to)
    }
}

/// Whether `pat` stands in `v` at `at`.
pub fn matches_at(v: &Vec<char>, at: usize, pat: &Vec<char>) -> (r: bool)
    requires
        at + pat.len() <= v.len(),
    ensures
        r == (v@.subrange(at as int, at + pat.len()) == pat@),
{
    let mut j: usize = 0;
    while j < pat.len()
        invariant
            j <= pat.len(),
            at + pat.len() <= v.len(),
            forall|k: int| 0 <= k < j ==> v@[at + k] == pat@[k],
        decreases pat.len() - j,
    {
        if v[at + j] != pat[j] {
            assert(v@.subrange(at as int, at + pat.len())[j as int] != pat@[j as int]);
            return false;
        }
        j += 1;
    }
    assert(v@.subrange(at as int, at + pat.len()) =~= pat@);
    true
}

/// Replaces every occurrence of `from` by `to`.
pub fn replace(v: &Vec<char>, from: &str, to: &str) -> (r: Vec<char>)
    requires
        from@.len() > 0,
    ensures
        r@ == replace_spec(v@, from@, to@),
{
    let pat = chars_of(from);
    let mut out: Vec<char> = Vec::new();
    let mut i: usize = 0;
    assert(v@.skip(0) =~= v@);
    while i < v.len() && v.len() - i >= pat.len()
        invariant
            i <= v.len(),
            pat@ == from@,
            pat@.len() > 0,
            out@ + replace_spec(v@.skip(i as int), from@, to@) == replace_spec(v@, from@, to@),
        decreases v.len() - i,
    {
        let ghost before = out@;
        let ghost tail = v@.skip(i as int);
        assert(tail.take(pat.len() as int) =~= v@.subrange(i as int, i + pat.len()));
        if matches_at(v, i, &pat) {
            push_str_chars(&mut out, to);
            assert(tail.skip(pat.len() as int) =~= v@.skip(i + pat.len()));
            assert(out@ + replace_spec(v@.skip(i + pat.len()), from@, to@) =~= before
                + replace_spec(tail, from@, to@));
            i = i + pat.len();
        } else {
            out.push(v[i]);
            assert(tail[0] == v@[i as int]);
            assert(tail.skip(1) =~= v@.skip(i + 1));
            assert(out@ + replace_spec(v@.skip(i + 1), from@, to@) =~= before + replace_spec(
                tail,
                from@,
                to@,
            ));
            i += 1;
        }
    }
    let ghost before = out@;
    let ghost tail = v@.skip(i as int);
    while i < v.len()
        invariant
            i <= v.len(),
            out@ + v@.skip(i as int) == before + tail,
        decreases v.len() - i,
    {
        out.push(v[i]);
        assert(v@.skip(i as int) =~= seq![v@[i as int]] + v@.skip(i + 1));
        assert(out@ + v@.skip(i + 1) =~= before + tail);
        i += 1;
    }
    assert(out@ + v@.skip(i as int) =~= out@);
    out
}

/// The text with the six markup entities `&amp;`, `&lt;`, `&gt;`, `&quot;`,
/// `&nbsp;` and `&#39;` replaced, in that order, by the characters they name.
pub open spec fn decode_entities_spec(s: Seq<char>) -> Seq<char> {
    replace_spec(
        replace_spec(
            replace_spec(
                replace_spec(
                    replace_spec(replace_spec(s, "&amp;"@, "&"@), "&lt;"@, "<"@),
                    "&gt;"@,
                    ">"@,
                ),
                "&quot;"@,
                "\""@,
            ),
            "&nbsp;"@,
            " "@,
        ),
        "&#39;"@,
        "'"@,
    )
}

/// Replaces the six markup entities by the characters they name.
pub fn decode_entities(v: &Vec<char>) -> (r: Vec<char>)
    ensures
        r@ == decode_entities_spec(v@),
{
    proof {
        reveal_strlit("&amp;");
        reveal_strlit("&lt;");
        reveal_strlit("&gt;");
        reveal_strlit("&quot;");
        reveal_strlit("&nbsp;");
        reveal_strlit("&#39;");
    }
    let a = replace(v, "&amp;", "&");
    let b = replace(&a, "&lt;", "<");
    let c = replace(&b, "&gt;", ">");
    let d = replace(&c, "&quot;", "\"");
    let e = replace(&d, "&nbsp;", " ");
    replace(&e, "&#39;", "'")
}

/// The text without the white space at its end.
pub open spec fn trim_end_spec(s: Seq<char>) -> Seq<char>
    decreases s.len(),
{
    if s.len() > 0 && is_space(s.last()) {
        trim_end_spec(s.drop_last())
    } else {
        s
    }
}

/// The text without the white space at either end.
pub open spec fn trim_spec(s: Seq<char>) -> Seq<char> {
    let n = run_len(s, Stop::Word);
    if 0 <= n <= s.len() {
        trim_end_spec(s.skip(n))
    } else {
        s
    }
}

/// Cuts the white space off both ends.
pub fn trim(v: &Vec<char>) -> (r: Vec<char>)
    ensures
        r@ == trim_spec(v@),
{
    assert(v@.skip(0) =~= v@);
    let start: usize = run_end(v, 0, Stop::Word);
    let ghost body = v@.skip(start as int);
    let mut end: usize = v.len();
    assert(v@.subrange(start as int, end as int) =~= body);
    while end > start && space(v[end - 1])
        invariant
            start <= end <= v.len(),
            trim_end_spec(v@.subrange(start as int, end as int)) == trim_end_spec(body),
        decreases end,
    {
        assert(v@.subrange(start as int, end as int).drop_last() =~= v@.subrange(
            start as int,
            end - 1,
        ));
        end -= 1;
    }
    slice_of(v, start, end)
}

/// The decimal digits of a number hold no character that is not a digit.
pub proof fn lemma_decimal_has_no(n: nat, c: char)
    requires
        digit_value(c) is None,
    ensures
        decimal(n).len() > 0,
        forall|i: int| 0 <= i < decimal(n).len() ==> decimal(n)[i] != c,
        forall|i: int| 0 <= i < decimal(n).len() ==> digit_value(#[trigger] decimal(n)[i]) is Some,
    decreases n,
{
    if n >= 10 {
        lemma_decimal_has_no(n / 10, c);
    }
}

/// The decimal digits of a number denote that number.
pub proof fn lemma_decimal_value(n: nat)
    ensures
        digits_value(decimal(n)) == Some(n),
    decreases n,
{
    if n < 10 {
        let s = decimal(n);
        assert(s.drop_last() =~= Seq::<char>::empty());
        assert(digits_value(s.drop_last()) == Some(0nat));
    } else {
        lemma_decimal_value(n / 10);
        let s = decimal(n);
        assert(s.drop_last() =~= decimal(n / 10));
        assert(s.last() == digit_char(n % 10));
    }
}

/// Reading the decimal digits of a number gives the number back.
pub proof fn lemma_parse_decimal_of_decimal(n: u64)
    ensures
        parse_decimal_spec(decimal(n as nat)) == Some(n),
{
    lemma_decimal_has_no(n as nat, '+');
    lemma_decimal_value(n as nat);
}

} // verus!
