use vstd::prelude::*;

verus! {

/// `String::push`, which appends one character to the string.
#[verifier::external_body]
pub(crate) fn string_push(s: &mut String, c: char)
    ensures
        final(s)@ == old(s)@.push(c),
{
    s.push(c);
}

/// The characters of `source`, in order.
pub fn collect_chars(source: &str) -> (v: Vec<char>)
    ensures
        v@ == source@,
{
    broadcast use vstd::string::group_string_axioms;

    let mut v: Vec<char> = Vec::new();
    for c in it: source.chars()
        invariant
            v@ == it.seq().take(it.index() as int),
            it.seq() == source@,
    {
        v.push(c);
    }
    v
}

/// A string made of the given characters.
pub fn chars_to_str(chars: &[char]) -> (s: String)
    ensures
        s@ == chars@,
{
    let mut s = String::new();
    let mut i: usize = 0;
    while i < chars.len()
        invariant
            i <= chars@.len(),
            s@ == chars@.take(i as int),
        decreases chars@.len() - i,
    {
        string_push(&mut s, chars[i]);
        i = i + 1;
        assert(s@ =~= chars@.take(i as int));
    }
    assert(chars@.take(i as int) =~= chars@);
    s
}

/// Every character takes at most four bytes in UTF-8.
pub proof fn lemma_utf8_len_bound(s: Seq<char>)
    ensures
        vstd::utf8::encode_utf8(s).len() <= 4 * s.len(),
    decreases s.len(),
{
    if s.len() > 0 {
        lemma_utf8_len_bound(s.drop_first());
    }
}


/// The digit for `d` in base sixteen, with capital letters above nine.
pub open spec fn digit_char(d: nat) -> char {
    if d < 10 {
        (('0' as nat) + d) as char
    } else {
        (('A' as nat) + (d - 10)) as char
    }
}

/// `n` written in base `b`, most significant digit first, without leading
/// zeros (zero is `0`).
pub open spec fn digits(n: nat, b: nat) -> Seq<char>
    recommends
        2 <= b <= 16,
    decreases n,
{
    if b < 2 || n < b {
        seq![digit_char(n)]
    } else {
        proof {
            assert(n / b < n) by (nonlinear_arith)
                requires
                    b >= 2,
                    n >= b,
            ;
        }
        digits(n / b, b).push(digit_char(n % b))
    }
}

/// `n` in decimal notation.
pub open spec fn decimal(n: nat) -> Seq<char> {
    digits(n, 10)
}

fn digit(d: usize) -> (c: char)
    requires
        d < 16,
    ensures
        c == digit_char(d as nat),
{
    match d {
        0 => '0',
        1 => '1',
        2 => '2',
        3 => '3',
        4 => '4',
        5 => '5',
        6 => '6',
        7 => '7',
        8 => '8',
        9 => '9',
        10 => 'A',
        11 => 'B',
        12 => 'C',
        13 => 'D',
        14 => 'E',
        _ => 'F',
    }
}

/// Appends `n` written in base `base`.
pub fn push_digits(s: &mut String, n: usize, base: usize)
    requires
        2 <= base <= 16,
    ensures
        final(s)@ == old(s)@ + digits(n as nat, base as nat),
    decreases n,
{
    if n >= base {
        assert(n / base < n) by (nonlinear_arith)
            requires
                base >= 2,
                n >= base,
        ;
        push_digits(s, n / base, base);
    }
    proof {
        if n < base {
            vstd::arithmetic::div_mod::lemma_small_mod(n as nat, base as nat);
        }
    }
    string_push(s, digit(n % base));
    assert(s@ =~= old(s)@ + digits(n as nat, base as nat));
}

/// Appends `n` in decimal notation.
pub fn push_decimal(s: &mut String, n: usize)
    ensures
        final(s)@ == old(s)@ + decimal(n as nat),
{
    push_digits(s, n, 10);
}

/// Appends `t`.
pub fn push_str(s: &mut String, t: &str)
    ensures
        final(s)@ == old(s)@ + t@,
{
    s.append(t);
}

/// `count` spaces.
pub open spec fn spaces_seq(count: nat) -> Seq<char> {
    Seq::new(count, |i: int| ' ')
}

/// Appends `count` spaces.
pub fn push_spaces(s: &mut String, count: usize)
    ensures
        final(s)@ == old(s)@ + spaces_seq(count as nat),
{
    let ghost start = s@;
    let mut i: usize = 0;
    while i < count
        invariant
            i <= count,
            s@ == start + spaces_seq(i as nat),
        decreases count - i,
    {
        string_push(s, ' ');
        i = i + 1;
        assert(s@ =~= start + spaces_seq(i as nat));
    }
}

} // verus!
