use vstd::prelude::*;
use vstd::string::*;

verus! {

/// The character of one binary digit.
pub open spec fn bit_char(one: bool) -> char {
    if one {
        '1'
    } else {
        '0'
    }
}

/// The `width` lowest binary digits of `value`, most significant first: the binary form of
/// `value` left-padded with zeros whenever `value < 2^width`.
pub open spec fn bits(value: nat, width: nat) -> Seq<char>
    decreases width,
{
    if width == 0 {
        Seq::empty()
    } else {
        bits(value / 2, (width - 1) as nat).push(bit_char(value % 2 == 1))
    }
}

/// A run of `n` zero bits.
pub open spec fn zeros(n: nat) -> Seq<char> {
    Seq::new(n, |i: int| '0')
}

pub broadcast proof fn lemma_bits_len(value: nat, width: nat)
    ensures
        #[trigger] bits(value, width).len() == width,
    decreases width,
{
    if width > 0 {
        lemma_bits_len(value / 2, (width - 1) as nat);
    }
}

/// A value below `2^width` is read back from its digits.
pub proof fn lemma_bits_value(value: nat, width: nat)
    requires
        value < vstd::arithmetic::power2::pow2(width),
    ensures
        bits_value(bits(value, width)) == value,
    decreases width,
{
    if width > 0 {
        vstd::arithmetic::power2::lemma_pow2_unfold(width);
        assert(value / 2 < vstd::arithmetic::power2::pow2((width - 1) as nat));
        lemma_bits_value(value / 2, (width - 1) as nat);
        let s = bits(value, width);
        assert(s.drop_last() == bits(value / 2, (width - 1) as nat));
        assert(s.last() == bit_char(value % 2 == 1));
    } else {
        vstd::arithmetic::power2::lemma2_to64();
    }
}

/// The number that a string of binary digits stands for.
pub open spec fn bits_value(s: Seq<char>) -> nat
    decreases s.len(),
{
    if s.len() == 0 {
        0
    } else {
        2 * bits_value(s.drop_last()) + if s.last() == '1' {
            1nat
        } else {
            0nat
        }
    }
}

/// The `width` lowest binary digits of `value`, most significant first.
pub fn to_binary(value: u32, width: usize) -> (r: String)
    ensures
        r@ == bits(value as nat, width as nat),
    decreases width,
{
    if width == 0 {
        String::new()
    } else {
        let mut s = to_binary(value / 2, width - 1);
        proof {
            reveal_strlit("1");
            reveal_strlit("0");
        }
        if value % 2 == 1 {
            s.append("1");
        } else {
            s.append("0");
        }
        s
    }
}

/// A run of `n` zero bits.
pub fn zero_bits(n: usize) -> (r: String)
    ensures
        r@ == zeros(n as nat),
{
    let mut s = String::new();
    let mut i: usize = 0;
    while i < n
        invariant
            i <= n,
            s@ == zeros(i as nat),
        decreases n - i,
    {
        proof {
            reveal_strlit("0");
        }
        s.append("0");
        assert(zeros(i as nat).push('0') == zeros(i as nat + 1));
        i = i + 1;
    }
    s
}

/// `s` cut into groups of `size` characters, the last possibly shorter, with one space
/// between groups.
pub open spec fn spaced(s: Seq<char>, size: nat) -> Seq<char>
    decreases s.len(),
{
    if size == 0 || s.len() <= size {
        s
    } else {
        s.subrange(0, size as int) + seq![' '] + spaced(s.subrange(size as int, s.len() as int), size)
    }
}

/// `bit_string` in groups of `chunk_size` characters, one space between groups.
pub fn format_bit_string(bit_string: &str, chunk_size: usize) -> (r: String)
    requires
        chunk_size > 0,
    ensures
        r@ == spaced(bit_string@, chunk_size as nat),
{
    let ghost s = bit_string@;
    let ghost k = chunk_size as nat;
    let n = bit_string.unicode_len();
    let mut out = String::new();
    let mut start: usize = 0;
    assert(s.subrange(0, n as int) == s);
    while start < n
        invariant
            n == s.len(),
            s == bit_string@,
            k == chunk_size,
            k > 0,
            start <= n,
            spaced(s, k) == out@ + (if 0 < start < n {
                seq![' ']
            } else {
                Seq::<char>::empty()
            }) + spaced(s.subrange(start as int, n as int), k),
        decreases n - start,
    {
        let ghost rest = s.subrange(start as int, n as int);
        let end = if n - start > chunk_size {
            start + chunk_size
        } else {
            n
        };
        if start > 0 {
            proof {
                reveal_strlit(" ");
            }
            out.append(" ");
        }
        out.append(bit_string.substring_char(start, end));
        proof {
            if rest.len() > k {
                assert(rest.subrange(0, k as int) == s.subrange(start as int, end as int));
                assert(rest.subrange(k as int, rest.len() as int) == s.subrange(end as int, n as int));
            } else {
                assert(rest == s.subrange(start as int, end as int));
                assert(s.subrange(end as int, n as int).len() == 0);
            }
        }
        start = end;
    }
    assert(s.subrange(n as int, n as int) == Seq::<char>::empty());
    out
}

} // verus!
