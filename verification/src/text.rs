//! Character-level text building blocks: decimal rendering, padding and trimming,
//! each stated over the `Seq<char>` view of the strings involved.
use vstd::prelude::*;

verus! {

// ---------------------------------------------------------------------------
// Specifications
// ---------------------------------------------------------------------------

/// The ASCII digit for a value below ten.
pub open spec fn digit_char(d: int) -> char {
    if d == 0 { '0' }
    else if d == 1 { '1' }
    else if d == 2 { '2' }
    else if d == 3 { '3' }
    else if d == 4 { '4' }
    else if d == 5 { '5' }
    else if d == 6 { '6' }
    else if d == 7 { '7' }
    else if d == 8 { '8' }
    else { '9' }
}

/// Decimal digits of a natural number, most significant first, without leading zeros.
pub open spec fn nat_digits(n: nat) -> Seq<char>
    decreases n,
{
    if n < 10 {
        seq![digit_char(n as int)]
    } else {
        nat_digits(n / 10).push(digit_char((n % 10) as int))
    }
}

/// How an integer is displayed: a minus sign for negative values, then its digits.
pub open spec fn int_text(v: int) -> Seq<char> {
    if v < 0 { seq!['-'] + nat_digits((-v) as nat) } else { nat_digits(v as nat) }
}

/// `n` copies of the character `c`.
pub open spec fn repeat_char(c: char, n: nat) -> Seq<char> {
    Seq::new(n, |i: int| c)
}

/// `n` spaces.
pub open spec fn spaces(n: nat) -> Seq<char> {
    repeat_char(' ', n)
}

/// Zero-padded integer of minimum width `w`, the zeros placed after any sign.
pub open spec fn zero_padded_int(v: int, w: nat) -> Seq<char> {
    if v < 0 {
        let d = nat_digits((-v) as nat);
        let fill = if d.len() + 1 < w { (w - d.len() - 1) as nat } else { 0nat };
        seq!['-'] + repeat_char('0', fill) + d
    } else {
        let d = nat_digits(v as nat);
        let fill = if d.len() < w { (w - d.len()) as nat } else { 0nat };
        repeat_char('0', fill) + d
    }
}

/// Right-aligned in a field of at least `w` characters (spaces in front).
pub open spec fn align_right(s: Seq<char>, w: nat) -> Seq<char> {
    if s.len() < w { spaces((w - s.len()) as nat) + s } else { s }
}

/// Left-aligned in a field of at least `w` characters (spaces behind).
pub open spec fn align_left(s: Seq<char>, w: nat) -> Seq<char> {
    if s.len() < w { s + spaces((w - s.len()) as nat) } else { s }
}

/// Centered in a field of at least `w` characters; an odd leftover space goes right.
pub open spec fn align_center(s: Seq<char>, w: nat) -> Seq<char> {
    if s.len() < w {
        let pad = (w - s.len()) as nat;
        spaces(pad / 2) + s + spaces((pad - pad / 2) as nat)
    } else {
        s
    }
}

/// The characters that count as white space (the Unicode `White_Space` set).
pub open spec fn is_space_char(c: char) -> bool {
    let u = c as u32;
    ||| 0x09 <= u <= 0x0D
    ||| u == 0x20
    ||| u == 0x85
    ||| u == 0xA0
    ||| u == 0x1680
    ||| 0x2000 <= u <= 0x200A
    ||| u == 0x2028
    ||| u == 0x2029
    ||| u == 0x202F
    ||| u == 0x205F
    ||| u == 0x3000
}

/// The sequence with its trailing white space removed.
pub open spec fn trim_end_seq(s: Seq<char>) -> Seq<char>
    decreases s.len(),
{
    if s.len() > 0 && is_space_char(s.last()) { trim_end_seq(s.drop_last()) } else { s }
}

/// The sequence with its leading white space removed.
pub open spec fn trim_start_seq(s: Seq<char>) -> Seq<char>
    decreases s.len(),
{
    if s.len() > 0 && is_space_char(s[0]) { trim_start_seq(s.drop_first()) } else { s }
}

/// The sequence with white space removed at both ends.
pub open spec fn trim_seq(s: Seq<char>) -> Seq<char> {
    trim_end_seq(trim_start_seq(s))
}

/// The first `n` characters, or all of them when there are fewer.
pub open spec fn take_chars(s: Seq<char>, n: nat) -> Seq<char> {
    if n < s.len() { s.take(n as int) } else { s }
}

/// The pieces laid end to end with `sep` between neighbours.
pub open spec fn join_seqs(parts: Seq<Seq<char>>, sep: Seq<char>) -> Seq<char>
    decreases parts.len(),
{
    if parts.len() == 0 {
        seq![]
    } else if parts.len() == 1 {
        parts[0]
    } else {
        join_seqs(parts.drop_last(), sep) + sep + parts.last()
    }
}

/// The views of a vector of strings.
pub open spec fn string_views(v: Seq<String>) -> Seq<Seq<char>> {
    v.map_values(|s: String| s@)
}

// ---------------------------------------------------------------------------
// Lemmas
// ---------------------------------------------------------------------------

/// A number below `10^k` has at most `k` digits (stated for the widths used here).
pub proof fn lemma_digits_len(n: nat)
    ensures
        nat_digits(n).len() >= 1,
        n < 10 ==> nat_digits(n).len() == 1,
        10 <= n < 100 ==> nat_digits(n).len() == 2,
        100 <= n < 1000 ==> nat_digits(n).len() == 3,
        n < 100 ==> nat_digits(n).len() <= 2,
        n < 1000 ==> nat_digits(n).len() <= 3,
    decreases n,
{
    if n >= 10 {
        lemma_digits_len(n / 10);
    }
}

/// Every digit character is outside the white-space set.
pub proof fn lemma_digits_not_space(n: nat)
    ensures
        forall|i: int| 0 <= i < nat_digits(n).len() ==> !is_space_char(#[trigger] nat_digits(n)[i]),
    decreases n,
{
    lemma_digit_char_not_space((n % 10) as int);
    if n >= 10 {
        lemma_digits_not_space(n / 10);
        assert forall|i: int| 0 <= i < nat_digits(n).len() implies !is_space_char(
            #[trigger] nat_digits(n)[i],
        ) by {
            if i < nat_digits(n / 10).len() {
                assert(nat_digits(n)[i] == nat_digits(n / 10)[i]);
            }
        }
    }
}

/// No digit character is white space.
pub proof fn lemma_digit_char_not_space(d: int)
    ensures
        !is_space_char(digit_char(d)),
{
}

/// Appending text that ends in a non-space character is unaffected by trimming the end.
pub proof fn lemma_trim_end_no_trailing_space(s: Seq<char>)
    requires
        s.len() == 0 || !is_space_char(s.last()),
    ensures
        trim_end_seq(s) == s,
{
}

/// Trimmed text ends in no white space, so trimming it again changes nothing.
pub proof fn lemma_trim_end_idempotent(s: Seq<char>)
    ensures
        trim_end_seq(trim_end_seq(s)) == trim_end_seq(s),
        trim_end_seq(s).len() == 0 || !is_space_char(trim_end_seq(s).last()),
    decreases s.len(),
{
    if s.len() > 0 && is_space_char(s.last()) {
        lemma_trim_end_idempotent(s.drop_last());
    }
}

/// Trailing spaces vanish under trimming.
pub proof fn lemma_trim_end_spaces(s: Seq<char>, n: nat)
    ensures
        trim_end_seq(s + spaces(n)) == trim_end_seq(s),
    decreases n,
{
    if n > 0 {
        assert((s + spaces(n)).drop_last() =~= s + spaces((n - 1) as nat));
        lemma_trim_end_spaces(s, (n - 1) as nat);
    } else {
        assert(s + spaces(0) =~= s);
    }
}

// ---------------------------------------------------------------------------
// Executable building blocks
// ---------------------------------------------------------------------------

/// Appends one character.
#[verifier::external_body]
pub(crate) fn push_char(s: &mut String, c: char)
    ensures
        final(s)@ == old(s)@.push(c),
{
    s.push(c);
}

/// Appends a string slice.
pub fn push_str(s: &mut String, t: &str)
    ensures
        final(s)@ == old(s)@ + t@,
{
    s.append(t);
}

/// The digit character for a value below ten.
pub fn digit_to_char(d: u64) -> (c: char)
    requires
        d < 10,
    ensures
        c == digit_char(d as int),
{
    match d {
        0 => '0',
        1 => '1',
        2 => '2',
        3 => '3',
        4 => '4',
        5 => '5',
        6 => '6',
        7 => '7',
        8 => '8',
        _ => '9',
    }
}

/// Appends the decimal digits of `n`.
pub fn push_nat(s: &mut String, n: u64)
    ensures
        final(s)@ == old(s)@ + nat_digits(n as nat),
    decreases n,
{
    if n >= 10 {
        push_nat(s, n / 10);
        let c = digit_to_char(n % 10);
        push_char(s, c);
        assert(final(s)@ =~= old(s)@ + nat_digits(n as nat));
    } else {
        let c = digit_to_char(n);
        push_char(s, c);
        assert(final(s)@ =~= old(s)@ + nat_digits(n as nat));
    }
}

/// The magnitude of a signed value.
pub fn magnitude(v: i64) -> (m: u64)
    ensures
        m as int == if v < 0 { -v } else { v as int },
{
    if v < 0 {
        if v == i64::MIN {
            9223372036854775808u64
        } else {
            (-v) as u64
        }
    } else {
        v as u64
    }
}

/// Appends `n` copies of `c`.
pub fn push_repeat(s: &mut String, c: char, n: usize)
    ensures
        final(s)@ == old(s)@ + repeat_char(c, n as nat),
{
    let ghost start = s@;
    let mut i: usize = 0;
    while i < n
        invariant
            i <= n,
            s@ == start + repeat_char(c, i as nat),
        decreases n - i,
    {
        push_char(s, c);
        i = i + 1;
        assert(s@ =~= start + repeat_char(c, i as nat));
    }
}

/// `10^k`.
pub open spec fn pow10(k: nat) -> nat
    decreases k,
{
    if k == 0 { 1 } else { 10 * pow10((k - 1) as nat) }
}

/// A number below `10^k` (with `k >= 1`) has at most `k` digits.
pub proof fn lemma_digits_bound(n: nat, k: nat)
    requires
        k >= 1,
        n < pow10(k),
    ensures
        nat_digits(n).len() <= k,
    decreases k,
{
    if n >= 10 {
        assert(k >= 2) by {
            if k == 1 {
                assert(pow10(1) == 10) by { reveal_with_fuel(pow10, 2); }
            }
        }
        assert(n / 10 < pow10((k - 1) as nat)) by (nonlinear_arith)
            requires
                n < 10 * pow10((k - 1) as nat),
        ;
        lemma_digits_bound(n / 10, (k - 1) as nat);
    }
}

/// Number of decimal digits of `n`.
pub fn digit_count(n: u64) -> (k: usize)
    ensures
        k as nat == nat_digits(n as nat).len(),
        k <= 20,
    decreases n,
{
    proof {
        reveal_with_fuel(pow10, 21);
        assert(pow10(20) == 100000000000000000000nat);
        lemma_digits_bound(n as nat, 20);
    }
    if n >= 10 {
        let k = digit_count(n / 10);
        k + 1
    } else {
        1
    }
}

/// Appends the integer `v` as displayed.
pub fn push_int(s: &mut String, v: i64)
    ensures
        final(s)@ == old(s)@ + int_text(v as int),
{
    let m = magnitude(v);
    if v < 0 {
        push_char(s, '-');
    }
    push_nat(s, m);
    assert(final(s)@ =~= old(s)@ + int_text(v as int));
}

/// Appends `v` zero-padded to at least `w` characters, zeros after any sign.
pub fn push_int_zero_padded(s: &mut String, v: i64, w: usize)
    ensures
        final(s)@ == old(s)@ + zero_padded_int(v as int, w as nat),
{
    let m = magnitude(v);
    let k = digit_count(m);
    if v < 0 {
        push_char(s, '-');
        let fill: usize = if k + 1 < w { w - k - 1 } else { 0 };
        push_repeat(s, '0', fill);
        push_nat(s, m);
    } else {
        let fill: usize = if k < w { w - k } else { 0 };
        push_repeat(s, '0', fill);
        push_nat(s, m);
    }
    assert(final(s)@ =~= old(s)@ + zero_padded_int(v as int, w as nat));
}

/// The number of characters of a string slice.
pub fn char_count(s: &str) -> (n: usize)
    ensures
        n as nat == s@.len(),
{
    s.unicode_len()
}

/// Appends the first `n` characters of `t` (all of `t` when it is shorter).
pub fn push_prefix(s: &mut String, t: &str, n: usize)
    ensures
        final(s)@ == old(s)@ + take_chars(t@, n as nat),
{
    let len = char_count(t);
    let end = if n < len { n } else { len };
    let part = t.substring_char(0, end);
    s.append(part);
    assert(take_chars(t@, n as nat) =~= t@.subrange(0, end as int));
}

/// Appends `t` right-aligned in a field of `w` characters.
pub fn push_align_right(s: &mut String, t: &str, w: usize)
    ensures
        final(s)@ == old(s)@ + align_right(t@, w as nat),
{
    let len = char_count(t);
    if len < w {
        push_repeat(s, ' ', w - len);
    }
    s.append(t);
    assert(final(s)@ =~= old(s)@ + align_right(t@, w as nat));
}

/// Appends `t` left-aligned in a field of `w` characters.
pub fn push_align_left(s: &mut String, t: &str, w: usize)
    ensures
        final(s)@ == old(s)@ + align_left(t@, w as nat),
{
    let len = char_count(t);
    s.append(t);
    if len < w {
        push_repeat(s, ' ', w - len);
    }
    assert(final(s)@ =~= old(s)@ + align_left(t@, w as nat));
}

/// Appends `t` centered in a field of `w` characters.
pub fn push_align_center(s: &mut String, t: &str, w: usize)
    ensures
        final(s)@ == old(s)@ + align_center(t@, w as nat),
{
    let len = char_count(t);
    if len < w {
        let pad = w - len;
        push_repeat(s, ' ', pad / 2);
        s.append(t);
        push_repeat(s, ' ', pad - pad / 2);
    } else {
        s.append(t);
    }
    assert(final(s)@ =~= old(s)@ + align_center(t@, w as nat));
}

/// Whether a character is white space.
pub fn is_space(c: char) -> (b: bool)
    ensures
        b == is_space_char(c),
{
    let u = c as u32;
    (0x09 <= u && u <= 0x0D) || u == 0x20 || u == 0x85 || u == 0xA0 || u == 0x1680 || (0x2000
        <= u && u <= 0x200A) || u == 0x2028 || u == 0x2029 || u == 0x202F || u == 0x205F || u
        == 0x3000
}

/// Characters of a string slice as a vector.
pub fn chars_of(t: &str) -> (v: Vec<char>)
    ensures
        v@ == t@,
{
    let mut v: Vec<char> = Vec::new();
    for c in it: t.chars()
        invariant
            v@ == t@.take(it.index() as int),
            it.seq() == t@,
    {
        v.push(c);
    }
    assert(v@ =~= t@);
    v
}

proof fn lemma_trim_end_prefix(s: Seq<char>, k: int)
    requires
        0 <= k <= s.len(),
        forall|i: int| k <= i < s.len() ==> is_space_char(#[trigger] s[i]),
    ensures
        trim_end_seq(s) == trim_end_seq(s.take(k)),
    decreases s.len() - k,
{
    if k < s.len() {
        assert(s.drop_last().take(k) =~= s.take(k));
        lemma_trim_end_prefix(s.drop_last(), k);
    } else {
        assert(s.take(k) =~= s);
    }
}

proof fn lemma_trim_start_suffix(s: Seq<char>, k: int)
    requires
        0 <= k <= s.len(),
        forall|i: int| 0 <= i < k ==> is_space_char(#[trigger] s[i]),
    ensures
        trim_start_seq(s) == trim_start_seq(s.skip(k)),
    decreases k,
{
    if k > 0 {
        assert(s.drop_first().skip(k - 1) =~= s.skip(k));
        lemma_trim_start_suffix(s.drop_first(), k - 1);
    } else {
        assert(s.skip(0) =~= s);
    }
}

/// The string with trailing white space removed.
pub fn trimmed_end(t: &str) -> (r: String)
    ensures
        r@ == trim_end_seq(t@),
{
    let cs = chars_of(t);
    let mut k: usize = cs.len();
    while k > 0 && is_space(cs[k - 1])
        invariant
            k <= cs.len(),
            cs@ == t@,
            forall|i: int| k <= i < cs.len() ==> is_space_char(#[trigger] cs@[i]),
        decreases k,
    {
        k = k - 1;
    }
    proof {
        lemma_trim_end_prefix(t@, k as int);
    }
    let mut r = String::new();
    push_prefix(&mut r, t, k);
    proof {
        assert(r@ =~= t@.take(k as int));
    }
    r
}

/// The string with white space removed at both ends.
pub fn trimmed(t: &str) -> (r: String)
    ensures
        r@ == trim_seq(t@),
{
    let cs = chars_of(t);
    let n = cs.len();
    let mut a: usize = 0;
    while a < n && is_space(cs[a])
        invariant
            a <= n,
            n == cs.len(),
            cs@ == t@,
            forall|i: int| 0 <= i < a ==> is_space_char(#[trigger] cs@[i]),
        decreases n - a,
    {
        a = a + 1;
    }
    proof {
        lemma_trim_start_suffix(t@, a as int);
        lemma_trim_start_stops(t@.skip(a as int));
    }
    let rest = t.substring_char(a, n);
    assert(rest@ =~= t@.skip(a as int));
    trimmed_end(rest)
}

proof fn lemma_trim_start_stops(s: Seq<char>)
    requires
        s.len() == 0 || !is_space_char(s[0]),
    ensures
        trim_start_seq(s) == s,
{
}

/// Whether two string slices hold the same characters.
pub fn same_text(a: &str, b: &str) -> (r: bool)
    ensures
        r == (a@ == b@),
{
    let x = chars_of(a);
    let y = chars_of(b);
    if x.len() != y.len() {
        return false;
    }
    let mut i: usize = 0;
    while i < x.len()
        invariant
            i <= x.len(),
            x.len() == y.len(),
            x@ == a@,
            y@ == b@,
            forall|j: int| 0 <= j < i ==> x@[j] == y@[j],
        decreases x.len() - i,
    {
        if x[i] != y[i] {
            return false;
        }
        i = i + 1;
    }
    assert(a@ =~= b@);
    true
}

/// Lays the strings end to end with `sep` between neighbours.
pub fn join_strings(parts: &Vec<String>, sep: &str) -> (r: String)
    ensures
        r@ == join_seqs(string_views(parts@), sep@),
{
    let mut r = String::new();
    let ghost views = string_views(parts@);
    let mut i: usize = 0;
    while i < parts.len()
        invariant
            i <= parts.len(),
            views == string_views(parts@),
            r@ == join_seqs(views.take(i as int), sep@),
        decreases parts.len() - i,
    {
        if i > 0 {
            s_append(&mut r, sep);
        }
        s_append(&mut r, parts[i].as_str());
        proof {
            assert(views.take(i + 1).drop_last() =~= views.take(i as int));
            assert(views[i as int] == parts@[i as int]@);
            if i == 0 {
                assert(r@ =~= views.take(1)[0]);
            }
        }
        i = i + 1;
    }
    assert(views.take(parts.len() as int) =~= views);
    r
}

fn s_append(r: &mut String, t: &str)
    ensures
        final(r)@ == old(r)@ + t@,
{
    r.append(t);
}

} // verus!
