//! Character-level text helpers with exact specifications over `Seq<char>`.
//!
//! Strings are handled as `Vec<char>` inside the library; `chars_of` and
//! `string_of` move between `String`/`&str` and that form.

use vstd::prelude::*;

verus! {

// ---------------------------------------------------------------------------
// Conversions
// ---------------------------------------------------------------------------

/// The characters of `s`, in order.
pub fn chars_of(s: &str) -> (v: Vec<char>)
    ensures
        v@ == s@,
{
    let mut v: Vec<char> = Vec::new();
    for c in it: s.chars()
        invariant
            v@ == it.seq().take(it.index() as int),
    {
        v.push(c);
    }
    v
}

/// `String::from_iter` over the characters of `v`: the string made of exactly
/// these characters, in order.
#[verifier::external_body]
pub(crate) fn string_of(v: &Vec<char>) -> (s: String)
    ensures
        s@ == v@,
{
    v.iter().collect::<String>()
}

/// The characters of an optional string.
pub open spec fn opt_chars(o: Option<String>) -> Option<Seq<char>> {
    match o {
        Some(s) => Some(s@),
        None => None,
    }
}

/// An owned copy of `s`.
pub fn owned(s: &str) -> (r: String)
    ensures
        r@ == s@,
{
    string_of(&chars_of(s))
}

/// A copy of the characters of `v`.
pub fn copy_chars(v: &Vec<char>) -> (r: Vec<char>)
    ensures
        r@ == v@,
{
    let mut r: Vec<char> = Vec::new();
    let mut i: usize = 0;
    while i < v.len()
        invariant
            i <= v.len(),
            r@ == v@.take(i as int),
        decreases v.len() - i,
    {
        r.push(v[i]);
        i = i + 1;
    }
    r
}

/// `a` followed by `b`.
pub fn concat_chars(a: &Vec<char>, b: &Vec<char>) -> (r: Vec<char>)
    ensures
        r@ == a@ + b@,
{
    let mut r = copy_chars(a);
    let mut i: usize = 0;
    while i < b.len()
        invariant
            i <= b.len(),
            r@ == a@ + b@.take(i as int),
        decreases b.len() - i,
    {
        r.push(b[i]);
        i = i + 1;
    }
    r
}

/// Appends all of `b` to `a`.
pub fn push_all(a: &mut Vec<char>, b: &Vec<char>)
    ensures
        final(a)@ == old(a)@ + b@,
{
    let mut i: usize = 0;
    while i < b.len()
        invariant
            i <= b.len(),
            a@ == old(a)@ + b@.take(i as int),
        decreases b.len() - i,
    {
        a.push(b[i]);
        i = i + 1;
    }
}

/// The characters `v[from..to]`.
pub fn slice_chars(v: &Vec<char>, from: usize, to: usize) -> (r: Vec<char>)
    requires
        from <= to <= v.len(),
    ensures
        r@ == v@.subrange(from as int, to as int),
{
    let mut r: Vec<char> = Vec::new();
    let mut i: usize = from;
    while i < to
        invariant
            from <= i <= to <= v.len(),
            r@ == v@.subrange(from as int, i as int),
        decreases to - i,
    {
        r.push(v[i]);
        i = i + 1;
    }
    r
}

/// Whether two character sequences are equal.
pub fn chars_eq(a: &Vec<char>, b: &Vec<char>) -> (r: bool)
    ensures
        r == (a@ == b@),
{
    if a.len() != b.len() {
        return false;
    }
    let mut i: usize = 0;
    while i < a.len()
        invariant
            a.len() == b.len(),
            i <= a.len(),
            forall|k: int| 0 <= k < i ==> a@[k] == b@[k],
        decreases a.len() - i,
    {
        if a[i] != b[i] {
            return false;
        }
        i = i + 1;
    }
    assert(a@ =~= b@);
    true
}

// ---------------------------------------------------------------------------
// Whitespace and trimming (the semantics of `str::trim`)
// ---------------------------------------------------------------------------

/// Unicode `White_Space`, the set `char::is_whitespace` tests.
pub open spec fn is_space(c: char) -> bool {
    let u = c as u32;
    ||| 0x09 <= u <= 0x0D
    ||| u == 0x20
    ||| u == 0x85
    ||| u == 0xA0
    ||| u == 0x1680
    ||| 0x2000 <= u <= 0x200A
    ||| u == 0x2028
    ||| u == 0x2029
    ||| u == 0x202F
    ||| u == 0x205F
    ||| u == 0x3000
}

/// Whether `c` is Unicode white space (`char::is_whitespace`).
pub fn char_is_space(c: char) -> (r: bool)
    ensures
        r == is_space(c),
{
    let u = c as u32;
    (0x09 <= u && u <= 0x0D) || u == 0x20 || u == 0x85 || u == 0xA0 || u == 0x1680 || (0x2000
        <= u && u <= 0x200A) || u == 0x2028 || u == 0x2029 || u == 0x202F || u == 0x205F || u
        == 0x3000
}

/// `s` without its leading whitespace.
pub open spec fn trim_start(s: Seq<char>) -> Seq<char>
    decreases s.len(),
{
    if s.len() > 0 && is_space(s[0]) {
        trim_start(s.drop_first())
    } else {
        s
    }
}

/// `s` without its trailing whitespace.
pub open spec fn trim_end(s: Seq<char>) -> Seq<char>
    decreases s.len(),
{
    if s.len() > 0 && is_space(s.last()) {
        trim_end(s.drop_last())
    } else {
        s
    }
}

/// `s` without leading and trailing whitespace.
pub open spec fn trim(s: Seq<char>) -> Seq<char> {
    trim_end(trim_start(s))
}

/// The characters of `v` without leading and trailing whitespace.
pub fn trim_chars(v: &Vec<char>) -> (r: Vec<char>)
    ensures
        r@ == trim(v@),
{
    let mut start: usize = 0;
    assert(v@.subrange(0, v.len() as int) =~= v@);
    while start < v.len() && char_is_space(v[start])
        invariant
            start <= v.len(),
            trim_start(v@) == trim_start(v@.subrange(start as int, v.len() as int)),
        decreases v.len() - start,
    {
        assert(v@.subrange(start as int, v.len() as int).drop_first() =~= v@.subrange(
            start + 1,
            v.len() as int,
        ));
        start = start + 1;
    }
    let ghost ts = v@.subrange(start as int, v.len() as int);
    assert(trim_start(v@) == ts);
    let mut end: usize = v.len();
    while end > start && char_is_space(v[end - 1])
        invariant
            start <= end <= v.len(),
            ts == v@.subrange(start as int, v.len() as int),
            trim_end(ts) == trim_end(v@.subrange(start as int, end as int)),
        decreases end - start,
    {
        assert(v@.subrange(start as int, end as int).drop_last() =~= v@.subrange(
            start as int,
            end - 1,
        ));
        end = end - 1;
    }
    slice_chars(v, start, end)
}

/// The characters of `v` without trailing whitespace (`str::trim_end`).
pub fn trim_end_chars(v: &Vec<char>) -> (r: Vec<char>)
    ensures
        r@ == trim_end(v@),
{
    let mut end: usize = v.len();
    assert(v@.subrange(0, v.len() as int) =~= v@);
    while end > 0 && char_is_space(v[end - 1])
        invariant
            end <= v.len(),
            trim_end(v@) == trim_end(v@.subrange(0, end as int)),
        decreases end,
    {
        assert(v@.subrange(0, end as int).drop_last() =~= v@.subrange(0, end - 1));
        end = end - 1;
    }
    slice_chars(v, 0, end)
}

/// `s` padded with spaces on the right to `width` characters (`{:<width}`).
pub open spec fn pad_right(s: Seq<char>, width: nat) -> Seq<char> {
    if s.len() < width {
        s + Seq::new((width - s.len()) as nat, |i: int| ' ')
    } else {
        s
    }
}

/// `format!("{:<width$}", s)` as characters.
pub fn pad_right_chars(v: &Vec<char>, width: usize) -> (r: Vec<char>)
    ensures
        r@ == pad_right(v@, width as nat),
{
    let mut r = copy_chars(v);
    if v.len() < width {
        let mut k: usize = v.len();
        while k < width
            invariant
                v.len() <= k <= width,
                r@ == v@ + Seq::new((k - v.len()) as nat, |i: int| ' '),
            decreases width - k,
        {
            r.push(' ');
            assert(r@ =~= v@ + Seq::new((k + 1 - v.len()) as nat, |i: int| ' '));
            k = k + 1;
        }
    }
    r
}

/// The position of the first of `items` equal to `wanted`.
pub fn index_of_text(items: &Vec<String>, wanted: &Vec<char>) -> (r: Option<usize>)
    ensures
        r matches Some(i) ==> i < items.len() && items@[i as int]@ == wanted@ && forall|j: int|
            0 <= j < i ==> (#[trigger] items@[j])@ != wanted@,
        r is None ==> forall|j: int| 0 <= j < items.len() ==> (#[trigger] items@[j])@ != wanted@,
{
    let mut i: usize = 0;
    while i < items.len()
        invariant
            i <= items.len(),
            forall|j: int| 0 <= j < i ==> (#[trigger] items@[j])@ != wanted@,
        decreases items.len() - i,
    {
        if chars_eq(&chars_of(items[i].as_str()), wanted) {
            return Some(i);
        }
        i = i + 1;
    }
    None
}

/// ASCII upper case of `c`.
pub open spec fn ascii_upper(c: char) -> char {
    if 'a' <= c <= 'z' {
        ((c as u32) - 32) as char
    } else {
        c
    }
}

/// `a` and `b` are equal ignoring ASCII case (`str::eq_ignore_ascii_case`).
pub open spec fn eq_ignore_ascii_case(a: Seq<char>, b: Seq<char>) -> bool {
    a.len() == b.len() && forall|i: int| 0 <= i < a.len() ==> ascii_upper(#[trigger] a[i]) == ascii_upper(b[i])
}

/// ASCII upper case of `c`, as `char::to_ascii_uppercase` gives it.
pub fn upper_exec(c: char) -> (r: char)
    ensures
        r == ascii_upper(c),
{
    if 'a' <= c && c <= 'z' {
        let b: u8 = (c as u8) - 32;
        b as char
    } else {
        c
    }
}

/// `str::eq_ignore_ascii_case` on characters.
pub fn eq_ignore_case_exec(a: &Vec<char>, b: &Vec<char>) -> (r: bool)
    ensures
        r == eq_ignore_ascii_case(a@, b@),
{
    if a.len() != b.len() {
        return false;
    }
    let mut i: usize = 0;
    while i < a.len()
        invariant
            a.len() == b.len(),
            i <= a.len(),
            forall|j: int| 0 <= j < i ==> ascii_upper(#[trigger] a@[j]) == ascii_upper(b@[j]),
        decreases a.len() - i,
    {
        if upper_exec(a[i]) != upper_exec(b[i]) {
            return false;
        }
        i = i + 1;
    }
    true
}

/// `n` copies of `c`.
pub open spec fn repeated(c: char, n: nat) -> Seq<char> {
    Seq::new(n, |i: int| c)
}

/// Appends `n` copies of `c` to `out`.
pub fn push_repeated(out: &mut Vec<char>, c: char, n: usize)
    ensures
        final(out)@ == old(out)@ + repeated(c, n as nat),
{
    let ghost start = out@;
    let mut k: usize = 0;
    while k < n
        invariant
            k <= n,
            out@ == start + repeated(c, k as nat),
        decreases n - k,
    {
        out.push(c);
        assert(out@ =~= start + repeated(c, (k + 1) as nat));
        k = k + 1;
    }
}

/// The texts `f` gives the items, one after another.
pub open spec fn concat_map<T>(items: Seq<T>, f: spec_fn(T) -> Seq<char>) -> Seq<char>
    decreases items.len(),
{
    if items.len() == 0 {
        seq![]
    } else {
        concat_map(items.drop_last(), f) + f(items.last())
    }
}

/// The text of a `bool` as `{}` prints it.
pub open spec fn bool_text(b: bool) -> Seq<char> {
    if b {
        "true"@
    } else {
        "false"@
    }
}

/// `b` as `{}` prints it.
pub fn bool_chars(b: bool) -> (r: Vec<char>)
    ensures
        r@ == bool_text(b),
{
    if b {
        chars_of("true")
    } else {
        chars_of("false")
    }
}

/// `s.trim()` as characters.
pub fn trimmed(s: &str) -> (r: Vec<char>)
    ensures
        r@ == trim(s@),
{
    let v = chars_of(s);
    trim_chars(&v)
}

// ---------------------------------------------------------------------------
// Prefixes, suffixes and occurrences
// ---------------------------------------------------------------------------

/// Whether `s` starts with `p`.
pub fn starts_with(s: &Vec<char>, p: &Vec<char>) -> (r: bool)
    ensures
        r == p@.is_prefix_of(s@),
{
    if p.len() > s.len() {
        return false;
    }
    let mut i: usize = 0;
    while i < p.len()
        invariant
            p.len() <= s.len(),
            i <= p.len(),
            forall|k: int| 0 <= k < i ==> p@[k] == s@[k],
        decreases p.len() - i,
    {
        if p[i] != s[i] {
            return false;
        }
        i = i + 1;
    }
    assert(p@ =~= s@.take(p.len() as int));
    true
}

/// Whether `s` ends with `p`.
pub fn ends_with(s: &Vec<char>, p: &Vec<char>) -> (r: bool)
    ensures
        r == p@.is_suffix_of(s@),
{
    if p.len() > s.len() {
        return false;
    }
    let off = s.len() - p.len();
    let mut i: usize = 0;
    while i < p.len()
        invariant
            p.len() <= s.len(),
            off == s.len() - p.len(),
            i <= p.len(),
            forall|k: int| 0 <= k < i ==> p@[k] == s@[off + k],
        decreases p.len() - i,
    {
        if p[i] != s[off + i] {
            return false;
        }
        i = i + 1;
    }
    assert(p@ =~= s@.skip(off as int));
    true
}

/// `n` occurs in `h` starting at position `i`.
pub open spec fn occurs_at(h: Seq<char>, n: Seq<char>, i: int) -> bool {
    0 <= i && i + n.len() <= h.len() && h.subrange(i, i + n.len()) == n
}

/// `n` occurs somewhere in `h` (`str::contains`).
pub open spec fn contains_seq(h: Seq<char>, n: Seq<char>) -> bool {
    exists|i: int| occurs_at(h, n, i)
}

/// The position of the first occurrence of `n` in `h` (`str::find`).
#[verifier::opaque]
pub open spec fn first_occurrence(h: Seq<char>, n: Seq<char>) -> Option<int> {
    if contains_seq(h, n) {
        Some(choose|i: int| occurs_at(h, n, i) && forall|j: int| 0 <= j < i ==> !occurs_at(h, n, j))
    } else {
        None
    }
}

fn occurs_at_exec(h: &Vec<char>, n: &Vec<char>, i: usize) -> (r: bool)
    requires
        i + n.len() <= h.len(),
    ensures
        r == occurs_at(h@, n@, i as int),
{
    let mut k: usize = 0;
    while k < n.len()
        invariant
            i + n.len() <= h.len(),
            k <= n.len(),
            forall|j: int| 0 <= j < k ==> h@[i + j] == n@[j],
        decreases n.len() - k,
    {
        if h[i + k] != n[k] {
            assert(h@.subrange(i as int, i + n.len())[k as int] != n@[k as int]);
            return false;
        }
        k = k + 1;
    }
    assert(h@.subrange(i as int, i + n.len()) =~= n@);
    true
}

/// The first position at which `n` occurs in `h`.
pub fn find(h: &Vec<char>, n: &Vec<char>) -> (r: Option<usize>)
    ensures
        r matches Some(i) ==> first_occurrence(h@, n@) == Some(i as int) && occurs_at(
            h@,
            n@,
            i as int,
        ),
        r is None <==> first_occurrence(h@, n@) is None,
        r is Some <==> contains_seq(h@, n@),
{
    reveal(first_occurrence);
    if n.len() > h.len() {
        assert(!contains_seq(h@, n@));
        return None;
    }
    if n.len() == 0 {
        proof {
            assert(h@.subrange(0, 0) =~= n@);
            assert(occurs_at(h@, n@, 0));
            let c = choose|k: int|
                occurs_at(h@, n@, k) && forall|j: int| 0 <= j < k ==> !occurs_at(h@, n@, j);
            if c > 0 {
                assert(!occurs_at(h@, n@, 0));
            }
        }
        return Some(0);
    }
    let last = h.len() - n.len();
    let mut i: usize = 0;
    while i <= last
        invariant
            last == h.len() - n.len(),
            0 < n.len() <= h.len(),
            i <= last + 1,
            forall|j: int| 0 <= j < i ==> !occurs_at(h@, n@, j),
        decreases last + 1 - i,
    {
        if occurs_at_exec(h, n, i) {
            proof {
                reveal(first_occurrence);
                let c = choose|k: int|
                    occurs_at(h@, n@, k) && forall|j: int| 0 <= j < k ==> !occurs_at(h@, n@, j);
                assert(occurs_at(h@, n@, i as int));
                if c < i {
                } else if c > i {
                    assert(!occurs_at(h@, n@, i as int));
                }
            }
            return Some(i);
        }
        i = i + 1;
    }
    proof {
        assert forall|j: int| !occurs_at(h@, n@, j) by {
            if 0 <= j && j + n@.len() <= h@.len() {
                assert(j < i);
            }
        }
    }
    None
}

/// Whether `n` occurs in `h`.
pub fn contains(h: &Vec<char>, n: &Vec<char>) -> (r: bool)
    ensures
        r == contains_seq(h@, n@),
{
    find(h, n).is_some()
}

// ---------------------------------------------------------------------------
// Decimal numbers
// ---------------------------------------------------------------------------

/// The ASCII digit for `d`.
pub open spec fn digit_char(d: nat) -> char {
    if d == 0 {
        '0'
    } else if d == 1 {
        '1'
    } else if d == 2 {
        '2'
    } else if d == 3 {
        '3'
    } else if d == 4 {
        '4'
    } else if d == 5 {
        '5'
    } else if d == 6 {
        '6'
    } else if d == 7 {
        '7'
    } else if d == 8 {
        '8'
    } else {
        '9'
    }
}

/// The decimal representation of `n`, without leading zeros (`n.to_string()`).
pub open spec fn decimal(n: nat) -> Seq<char>
    decreases n,
{
    if n < 10 {
        seq![digit_char(n)]
    } else {
        decimal(n / 10).push(digit_char(n % 10))
    }
}

/// `s` padded on the left with `'0'` to at least `width` characters
/// (the `{:0width$}` format of a non-negative number).
pub open spec fn zero_pad(s: Seq<char>, width: nat) -> Seq<char> {
    if s.len() < width {
        Seq::new((width - s.len()) as nat, |i: int| '0') + s
    } else {
        s
    }
}

fn digit_exec(d: u64) -> (c: char)
    requires
        d < 10,
    ensures
        c == digit_char(d as nat),
{
    if d == 0 {
        '0'
    } else if d == 1 {
        '1'
    } else if d == 2 {
        '2'
    } else if d == 3 {
        '3'
    } else if d == 4 {
        '4'
    } else if d == 5 {
        '5'
    } else if d == 6 {
        '6'
    } else if d == 7 {
        '7'
    } else if d == 8 {
        '8'
    } else {
        '9'
    }
}

/// The decimal digits of `n`.
pub fn decimal_chars(n: u64) -> (r: Vec<char>)
    ensures
        r@ == decimal(n as nat),
    decreases n,
{
    if n < 10 {
        let mut v: Vec<char> = Vec::new();
        v.push(digit_exec(n));
        v
    } else {
        let mut v = decimal_chars(n / 10);
        v.push(digit_exec(n % 10));
        v
    }
}

/// The decimal digits of `n`, zero-padded to `width`.
pub fn padded_decimal(n: u64, width: usize) -> (r: Vec<char>)
    ensures
        r@ == zero_pad(decimal(n as nat), width as nat),
{
    let d = decimal_chars(n);
    if d.len() < width {
        let mut r: Vec<char> = Vec::new();
        let k = width - d.len();
        let mut i: usize = 0;
        while i < k
            invariant
                i <= k,
                r@ == Seq::new(i as nat, |j: int| '0'),
            decreases k - i,
        {
            r.push('0');
            i = i + 1;
            assert(r@ =~= Seq::new(i as nat, |j: int| '0'));
        }
        push_all(&mut r, &d);
        r
    } else {
        d
    }
}

/// Whether `c` is an ASCII digit.
pub open spec fn is_digit(c: char) -> bool {
    '0' <= c <= '9'
}

/// The value of a string of ASCII digits.
pub open spec fn digits_value(s: Seq<char>) -> nat
    decreases s.len(),
{
    if s.len() == 0 {
        0
    } else {
        digits_value(s.drop_last()) * 10 + ((s.last() as u32) - 48) as nat
    }
}

/// `s` without one leading `'+'`.
pub open spec fn unsigned_body(s: Seq<char>) -> Seq<char> {
    if s.len() > 0 && s[0] == '+' {
        s.drop_first()
    } else {
        s
    }
}

/// Every character of `s` is an ASCII digit.
pub open spec fn all_digits(s: Seq<char>) -> bool {
    forall|i: int| 0 <= i < s.len() ==> is_digit(s[i])
}

/// What `str::parse::<u64>` gives: an optional leading `+`, then at least one
/// ASCII digit and nothing else, with a value that fits in `u64`.
pub open spec fn parse_u64(s: Seq<char>) -> Option<u64> {
    let body = unsigned_body(s);
    if body.len() > 0 && all_digits(body) && digits_value(body) <= u64::MAX {
        Some(digits_value(body) as u64)
    } else {
        None
    }
}

proof fn lemma_decimal_digits(n: nat)
    ensures
        decimal(n).len() > 0,
        all_digits(decimal(n)),
        digits_value(decimal(n)) == n,
    decreases n,
{
    let d = n % 10;
    assert(is_digit(digit_char(d)) && (digit_char(d) as u32) - 48 == d) by {
        assert(0 <= d < 10);
    }
    if n >= 10 {
        lemma_decimal_digits(n / 10);
        let s = decimal(n / 10).push(digit_char(d));
        assert(s.drop_last() =~= decimal(n / 10));
        assert(s.last() == digit_char(d));
        assert(forall|i: int| 0 <= i < s.len() ==> is_digit(#[trigger] s[i])) by {
            assert forall|i: int| 0 <= i < s.len() implies is_digit(#[trigger] s[i]) by {
                if i < s.len() - 1 {
                    assert(s[i] == decimal(n / 10)[i]);
                }
            }
        }
        assert((n / 10) * 10 + d == n);
        assert(decimal(n) == s);
        assert(digits_value(s) == digits_value(decimal(n / 10)) * 10 + ((s.last() as u32) - 48) as nat);
    } else {
        assert(d == n);
        assert(decimal(n) =~= seq![digit_char(n)]);
        assert(decimal(n).drop_last() =~= Seq::<char>::empty());
        assert(digits_value(decimal(n)) == digits_value(decimal(n).drop_last()) * 10 + ((decimal(n).last() as u32) - 48) as nat);
    }
}

/// The decimal text of a `u64` reads back as that number.
pub proof fn lemma_parse_decimal(n: u64)
    ensures
        parse_u64(decimal(n as nat)) == Some(n),
{
    lemma_decimal_digits(n as nat);
    assert(is_digit(decimal(n as nat)[0]));
    assert(unsigned_body(decimal(n as nat)) == decimal(n as nat));
}

proof fn lemma_digits_value_grows(s: Seq<char>, k: int)
    requires
        0 <= k <= s.len(),
        forall|i: int| 0 <= i < s.len() ==> is_digit(s[i]),
    ensures
        digits_value(s.take(k)) <= digits_value(s),
    decreases s.len() - k,
{
    if k < s.len() {
        lemma_digits_value_grows(s, k + 1);
        assert(s.take(k + 1).drop_last() =~= s.take(k));
        assert(is_digit(s.take(k + 1).last()));
        assert(digits_value(s.take(k + 1)) == digits_value(s.take(k)) * 10 + ((s.take(
            k + 1,
        ).last() as u32) - 48) as nat);
    } else {
        assert(s.take(k) =~= s);
    }
}

/// `str::parse::<u64>`.
pub fn parse_u64_exec(v: &Vec<char>) -> (r: Option<u64>)
    ensures
        r == parse_u64(v@),
{
    let start: usize = if v.len() > 0 && v[0] == '+' {
        1
    } else {
        0
    };
    let ghost body = unsigned_body(v@);
    assert(body =~= v@.subrange(start as int, v.len() as int));
    if start == v.len() {
        assert(body.len() == 0);
        return None;
    }
    let mut i: usize = start;
    while i < v.len()
        invariant
            start <= i <= v.len(),
            body == unsigned_body(v@),
            body =~= v@.subrange(start as int, v.len() as int),
            forall|k: int| start <= k < i ==> is_digit(v@[k]),
        decreases v.len() - i,
    {
        if !('0' <= v[i] && v[i] <= '9') {
            assert(body[i - start] == v@[i as int]);
            assert(!is_digit(body[i - start]));
            assert(!all_digits(body));
            return None;
        }
        i = i + 1;
    }
    assert(forall|k: int| 0 <= k < body.len() ==> is_digit(body[k]));
    let mut acc: u128 = 0;
    let mut j: usize = start;
    while j < v.len()
        invariant
            start <= j <= v.len(),
            body == unsigned_body(v@),
            body =~= v@.subrange(start as int, v.len() as int),
            forall|k: int| 0 <= k < body.len() ==> is_digit(body[k]),
            acc == digits_value(body.take(j - start)),
            acc <= u64::MAX,
        decreases v.len() - j,
    {
        assert(body[j - start] == v@[j as int]);
        assert(is_digit(v@[j as int]));
        let d = (v[j] as u32 - 48) as u128;
        assert(body.take(j - start + 1).drop_last() =~= body.take(j - start));
        assert(body.take(j - start + 1).last() == v@[j as int]);
        let next = acc * 10 + d;
        assert(next == digits_value(body.take(j - start + 1)));
        if next > u64::MAX as u128 {
            proof {
                lemma_digits_value_grows(body, j - start + 1);
                assert(digits_value(body) > u64::MAX);
            }
            return None;
        }
        acc = next;
        j = j + 1;
    }
    assert(body.take(body.len() as int) =~= body);
    Some(acc as u64)
}

// ---------------------------------------------------------------------------
// Lines (the semantics of `str::lines`)
// ---------------------------------------------------------------------------

/// The position of the first `'\n'` in `s`, or `s.len()` when there is none.
pub open spec fn newline_index(s: Seq<char>) -> nat
    decreases s.len(),
{
    if s.len() == 0 {
        0
    } else if s[0] == '\n' {
        0
    } else {
        1 + newline_index(s.drop_first())
    }
}

/// A line without the `'\r'` of a `"\r\n"` terminator.
pub open spec fn strip_cr(line: Seq<char>) -> Seq<char> {
    if line.len() > 0 && line.last() == '\r' {
        line.drop_last()
    } else {
        line
    }
}

/// The lines of `s`: split at `'\n'`, a `'\r'` right before the `'\n'`
/// dropped, and no empty line after a final terminator.
pub open spec fn lines(s: Seq<char>) -> Seq<Seq<char>>
    decreases s.len(),
{
    if s.len() == 0 {
        seq![]
    } else {
        let i = newline_index(s);
        if i >= s.len() {
            seq![s]
        } else {
            seq![strip_cr(s.take(i as int))] + lines(s.skip(i + 1 as int))
        }
    }
}

proof fn lemma_newline_index(s: Seq<char>, j: int)
    requires
        0 <= j <= s.len(),
        forall|k: int| 0 <= k < j ==> s[k] != '\n',
        j == s.len() || s[j] == '\n',
    ensures
        newline_index(s) == j,
    decreases j,
{
    if j > 0 {
        lemma_newline_index(s.drop_first(), j - 1);
    }
}

/// The views of a vector of character vectors.
pub open spec fn views(v: Seq<Vec<char>>) -> Seq<Seq<char>> {
    v.map_values(|x: Vec<char>| x@)
}

fn strip_cr_exec(v: &Vec<char>, from: usize, to: usize) -> (r: Vec<char>)
    requires
        from <= to <= v.len(),
    ensures
        r@ == strip_cr(v@.subrange(from as int, to as int)),
{
    if to > from && v[to - 1] == '\r' {
        let r = slice_chars(v, from, to - 1);
        assert(r@ =~= v@.subrange(from as int, to as int).drop_last());
        r
    } else {
        slice_chars(v, from, to)
    }
}

/// The lines of `v` (`str::lines`).
pub fn split_lines(v: &Vec<char>) -> (r: Vec<Vec<char>>)
    ensures
        views(r@) == lines(v@),
{
    let mut out: Vec<Vec<char>> = Vec::new();
    let mut start: usize = 0;
    let mut i: usize = 0;
    assert(v@.skip(0) =~= v@);
    assert(views(out@) + lines(v@) =~= lines(v@));
    while i < v.len()
        invariant
            start <= i <= v.len(),
            forall|k: int| start <= k < i ==> v@[k] != '\n',
            lines(v@) == views(out@) + lines(v@.skip(start as int)),
        decreases v.len() - i,
    {
        if v[i] == '\n' {
            let ghost rest = v@.skip(start as int);
            proof {
                lemma_newline_index(rest, i - start);
                assert(rest.take(i - start) =~= v@.subrange(start as int, i as int));
                assert(rest.skip(i - start + 1) =~= v@.skip(i + 1));
            }
            let line = strip_cr_exec(v, start, i);
            let ghost before = out@;
            out.push(line);
            assert(views(out@) =~= views(before).push(line@));
            start = i + 1;
        }
        i = i + 1;
    }
    if start < v.len() {
        let ghost rest = v@.skip(start as int);
        proof {
            lemma_newline_index(rest, rest.len() as int);
        }
        let line = slice_chars(v, start, v.len());
        assert(line@ =~= rest);
        let ghost before = out@;
        out.push(line);
        assert(lines(rest) == seq![rest]);
        assert(views(out@) =~= views(before).push(line@));
    } else {
        assert(v@.skip(start as int).len() == 0);
    }
    out
}

// ---------------------------------------------------------------------------
// Splitting, suffix stripping, removal, joining
// ---------------------------------------------------------------------------

/// A path separator: `'\\'` or `'/'`.
pub open spec fn is_separator(c: char) -> bool {
    c == '\\' || c == '/'
}

/// The position of the first separator in `s`, or `s.len()`.
pub open spec fn separator_index(s: Seq<char>) -> nat
    decreases s.len(),
{
    if s.len() == 0 {
        0
    } else if is_separator(s[0]) {
        0
    } else {
        1 + separator_index(s.drop_first())
    }
}

/// The pieces of `s` between separators, empty pieces included
/// (`str::split` on `'\\'` and `'/'`).
pub open spec fn split_parts(s: Seq<char>) -> Seq<Seq<char>>
    decreases s.len(),
{
    let i = separator_index(s);
    if i >= s.len() {
        seq![s]
    } else {
        seq![s.take(i as int)] + split_parts(s.skip(i + 1 as int))
    }
}

proof fn lemma_separator_index(s: Seq<char>, j: int)
    requires
        0 <= j <= s.len(),
        forall|k: int| 0 <= k < j ==> !is_separator(s[k]),
        j == s.len() || is_separator(s[j]),
    ensures
        separator_index(s) == j,
    decreases j,
{
    if j > 0 {
        lemma_separator_index(s.drop_first(), j - 1);
    }
}

/// The pieces of `v` between `'\\'` and `'/'` separators.
pub fn split_on_separators(v: &Vec<char>) -> (r: Vec<Vec<char>>)
    ensures
        views(r@) == split_parts(v@),
{
    let mut out: Vec<Vec<char>> = Vec::new();
    let mut start: usize = 0;
    let mut i: usize = 0;
    assert(v@.skip(0) =~= v@);
    assert(views(out@) + split_parts(v@) =~= split_parts(v@));
    while i < v.len()
        invariant
            start <= i <= v.len(),
            forall|k: int| start <= k < i ==> !is_separator(v@[k]),
            split_parts(v@) == views(out@) + split_parts(v@.skip(start as int)),
        decreases v.len() - i,
    {
        if v[i] == '\\' || v[i] == '/' {
            let ghost rest = v@.skip(start as int);
            proof {
                lemma_separator_index(rest, i - start);
                assert(rest.take(i - start) =~= v@.subrange(start as int, i as int));
                assert(rest.skip(i - start + 1) =~= v@.skip(i + 1));
            }
            let piece = slice_chars(v, start, i);
            let ghost before = out@;
            out.push(piece);
            assert(views(out@) =~= views(before).push(piece@));
            start = i + 1;
        }
        i = i + 1;
    }
    let ghost rest = v@.skip(start as int);
    proof {
        lemma_separator_index(rest, rest.len() as int);
    }
    let piece = slice_chars(v, start, v.len());
    assert(piece@ =~= rest);
    let ghost before = out@;
    out.push(piece);
    assert(split_parts(rest) == seq![rest]);
    assert(views(out@) =~= views(before).push(piece@));
    out
}

/// `s` with every trailing copy of `p` removed (`str::trim_end_matches`).
pub open spec fn strip_suffix_all(s: Seq<char>, p: Seq<char>) -> Seq<char>
    decreases s.len(),
{
    if p.len() > 0 && p.is_suffix_of(s) {
        strip_suffix_all(s.take(s.len() - p.len()), p)
    } else {
        s
    }
}

/// Removes every trailing copy of `p` from `v`.
pub fn trim_end_matches(v: &Vec<char>, p: &Vec<char>) -> (r: Vec<char>)
    ensures
        r@ == strip_suffix_all(v@, p@),
{
    let mut end: usize = v.len();
    let mut cur = copy_chars(v);
    while p.len() > 0 && ends_with(&cur, p)
        invariant
            cur@ == v@.take(end as int),
            end <= v.len(),
            strip_suffix_all(v@, p@) == strip_suffix_all(cur@, p@),
        decreases end,
    {
        let ghost old_cur = cur@;
        end = end - p.len();
        cur = slice_chars(v, 0, end);
        assert(cur@ =~= old_cur.take(old_cur.len() - p@.len()));
    }
    cur
}

/// `s` with every occurrence of `p` removed, scanning left to right
/// (`str::replace(p, "")` for a non-empty `p`).
pub open spec fn remove_all(s: Seq<char>, p: Seq<char>) -> Seq<char>
    decreases s.len(),
{
    if s.len() == 0 || p.len() == 0 {
        s
    } else if p.is_prefix_of(s) {
        remove_all(s.skip(p.len() as int), p)
    } else {
        seq![s[0]] + remove_all(s.drop_first(), p)
    }
}

fn prefix_at(v: &Vec<char>, p: &Vec<char>, i: usize) -> (r: bool)
    requires
        i <= v.len(),
    ensures
        r == p@.is_prefix_of(v@.skip(i as int)),
{
    if p.len() > v.len() - i {
        return false;
    }
    let mut k: usize = 0;
    while k < p.len()
        invariant
            i + p.len() <= v.len(),
            k <= p.len(),
            forall|j: int| 0 <= j < k ==> v@[i + j] == p@[j],
        decreases p.len() - k,
    {
        if v[i + k] != p[k] {
            assert(v@.skip(i as int)[k as int] != p@[k as int]);
            return false;
        }
        k = k + 1;
    }
    assert(p@ =~= v@.skip(i as int).take(p.len() as int));
    true
}

/// `v` with every occurrence of `p` removed.
pub fn remove_occurrences(v: &Vec<char>, p: &Vec<char>) -> (r: Vec<char>)
    ensures
        r@ == remove_all(v@, p@),
{
    if p.len() == 0 {
        return copy_chars(v);
    }
    let mut out: Vec<char> = Vec::new();
    let mut i: usize = 0;
    assert(v@.skip(0) =~= v@);
    while i < v.len()
        invariant
            i <= v.len(),
            p.len() > 0,
            remove_all(v@, p@) == out@ + remove_all(v@.skip(i as int), p@),
        decreases v.len() - i,
    {
        let ghost rest = v@.skip(i as int);
        if prefix_at(v, p, i) {
            assert(rest.skip(p.len() as int) =~= v@.skip(i + p.len()));
            i = i + p.len();
        } else {
            assert(rest.drop_first() =~= v@.skip(i + 1));
            assert(rest[0] == v@[i as int]);
            let ghost before = out@;
            out.push(v[i]);
            assert(out@ + remove_all(v@.skip(i + 1), p@) =~= before + (seq![rest[0]]
                + remove_all(rest.drop_first(), p@)));
            i = i + 1;
        }
    }
    assert(v@.skip(i as int).len() == 0);
    assert(out@ + remove_all(v@.skip(i as int), p@) =~= out@);
    out
}

/// The first `n` characters of `v` (all of them when it is shorter).
pub fn take_chars(v: &Vec<char>, n: usize) -> (r: Vec<char>)
    ensures
        r@ == v@.take(if v@.len() < n { v@.len() as int } else { n as int }),
{
    let end = if v.len() < n {
        v.len()
    } else {
        n
    };
    slice_chars(v, 0, end)
}

/// The items of `items` separated by `sep`.
pub open spec fn join(items: Seq<Seq<char>>, sep: Seq<char>) -> Seq<char>
    decreases items.len(),
{
    if items.len() == 0 {
        Seq::empty()
    } else if items.len() == 1 {
        items[0]
    } else {
        join(items.drop_last(), sep) + sep + items.last()
    }
}

/// Joins the strings of `items` with `sep` between them.
pub fn join_strings(items: &Vec<String>, sep: &str) -> (r: Vec<char>)
    ensures
        r@ == join(items@.map_values(|s: String| s@), sep@),
{
    let ghost vs = items@.map_values(|s: String| s@);
    let sepc = chars_of(sep);
    let mut out: Vec<char> = Vec::new();
    let mut i: usize = 0;
    while i < items.len()
        invariant
            i <= items.len(),
            vs == items@.map_values(|s: String| s@),
            sepc@ == sep@,
            out@ == join(vs.take(i as int), sep@),
        decreases items.len() - i,
    {
        assert(vs.take(i + 1).drop_last() =~= vs.take(i as int));
        if i > 0 {
            push_all(&mut out, &sepc);
        }
        let c = chars_of(items[i].as_str());
        push_all(&mut out, &c);
        i = i + 1;
    }
    assert(vs.take(items.len() as int) =~= vs);
    out
}

// ---------------------------------------------------------------------------
// Lower case (the semantics of `str::to_lowercase` come from std)
// ---------------------------------------------------------------------------

/// What `str::to_lowercase` returns for a string with characters `s`.
pub uninterp spec fn lowercase(s: Seq<char>) -> Seq<char>;

/// `str::to_lowercase`: the Unicode lower-case mapping of `s`. The mapping
/// itself (Unicode's case tables) is not restated; its result is named
/// `lowercase`, a function of the characters of `s` alone.
#[verifier::external_body]
pub(crate) fn to_lowercase(s: &str) -> (r: String)
    ensures
        r@ == lowercase(s@),
{
    s.to_lowercase()
}

} // verus!
