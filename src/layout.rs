use crate::bits::{bits, bits_value, lemma_bits_len, lemma_bits_value};
use crate::encoder::{
    alphanumeric_groups, bit_groups, byte_groups, final_data, lemma_resolve_version,
    numeric_group, numeric_groups, required_bits, resolve, terminator_len, ErrorCorrectionLevel,
};
use crate::input::{char_count, count_field_width, InputMode};
use crate::versions::capacity;
use vstd::prelude::*;

verus! {

/// Number of data bits that packing `n` characters (bytes, in byte mode) takes in `mode`.
pub open spec fn packed_len(mode: InputMode, n: int) -> int {
    match mode {
        InputMode::Numeric => 10 * (n / 3) + if n % 3 == 0 {
            0int
        } else if n % 3 == 1 {
            4int
        } else {
            7int
        },
        InputMode::Alphanumeric => 11 * (n / 2) + 6 * (n % 2),
        InputMode::Byte => 8 * n,
    }
}

/// The first `m` groups, each of `w` bits, take `w * m` bits end to end.
proof fn lemma_flatten_len_uniform(groups: Seq<Seq<char>>, m: int, w: int)
    requires
        0 <= m <= groups.len(),
        forall|j: int| 0 <= j < m ==> (#[trigger] groups[j]).len() == w,
    ensures
        groups.subrange(0, m).flatten().len() == w * m,
    decreases m,
{
    if m > 0 {
        lemma_flatten_len_uniform(groups, m - 1, w);
        assert(groups.subrange(0, m) == groups.subrange(0, m - 1).push(groups[m - 1]));
        groups.subrange(0, m - 1).lemma_flatten_push(groups[m - 1]);
        assert(w * m == w * (m - 1) + w) by (nonlinear_arith);
    }
}

/// `q` full groups of `w` bits, then possibly one last group of `last` bits.
proof fn lemma_flatten_len_groups(groups: Seq<Seq<char>>, q: int, w: int, last: int)
    requires
        0 <= q,
        groups.len() == q || groups.len() == q + 1,
        forall|j: int| 0 <= j < q ==> (#[trigger] groups[j]).len() == w,
        groups.len() == q + 1 ==> groups[q].len() == last,
    ensures
        groups.flatten().len() == w * q + if groups.len() == q {
            0
        } else {
            last
        },
{
    lemma_flatten_len_uniform(groups, q, w);
    if groups.len() == q {
        assert(groups.subrange(0, q) == groups);
    } else {
        assert(groups == groups.subrange(0, q).push(groups[q]));
        groups.subrange(0, q).lemma_flatten_push(groups[q]);
    }
}

/// The packed data of `content` in `mode` is `packed_len` bits long.
pub proof fn lemma_packed_len(content: Seq<char>, mode: InputMode)
    ensures
        bit_groups(content, mode).flatten().len() == packed_len(
            mode,
            char_count(content, mode) as int,
        ),
{
    broadcast use lemma_bits_len;

    let n = content.len() as int;
    match mode {
        InputMode::Numeric => {
            let groups = numeric_groups(content);
            assert forall|j: int| 0 <= j < n / 3 implies (#[trigger] groups[j]).len() == 10 by {
                assert(numeric_group(content, j).len() == 3);
            }
            if n % 3 != 0 {
                assert(numeric_group(content, n / 3).len() == n % 3);
            }
            lemma_flatten_len_groups(groups, n / 3, 10, if n % 3 == 1 { 4 } else { 7 });
        },
        InputMode::Alphanumeric => {
            let groups = alphanumeric_groups(content);
            assert forall|j: int| 0 <= j < n / 2 implies (#[trigger] groups[j]).len() == 11 by {}
            lemma_flatten_len_groups(groups, n / 2, 11, 6);
        },
        InputMode::Byte => {
            let groups = byte_groups(vstd::utf8::encode_utf8(content));
            lemma_flatten_len_uniform(groups, groups.len() as int, 8);
            assert(groups.subrange(0, groups.len() as int) == groups);
        },
    }
}

/// More characters never take fewer bits.
proof fn lemma_packed_len_monotone(mode: InputMode, a: int, b: int)
    requires
        0 <= a <= b,
    ensures
        packed_len(mode, a) <= packed_len(mode, b),
{
}

/// At its capacity, every version, level and mode still fits the indicators and the data in
/// its data codewords, and the count fits its field.
proof fn lemma_capacity_fits(version: int, level: ErrorCorrectionLevel, mode: InputMode)
    requires
        1 <= version <= 40,
    ensures
        4 + count_field_width(version, mode) + packed_len(mode, capacity(version, level, mode))
            <= required_bits(version, level),
        capacity(version, level, mode) < vstd::arithmetic::power2::pow2(
            count_field_width(version, mode),
        ),
{
    vstd::arithmetic::power2::lemma2_to64();
}

/// The final data is the 4-bit mode indicator, the character-count field of the resolved
/// version, the packed data and the terminator, end to end. It never runs past the data
/// bits of the resolved version, and the count fits its field, which reads back as the count.
pub proof fn lemma_final_data_layout(content: Seq<char>, level: ErrorCorrectionLevel)
    requires
        resolve(content, level).version is Some,
    ensures
        ({
            let st = resolve(content, level);
            let v = st.version->0 as int;
            let count = char_count(content, st.mode);
            let packed = bit_groups(content, st.mode).flatten().len() as int;
            let current = 4 + count_field_width(v, st.mode) + packed;
            &&& packed == packed_len(st.mode, count as int)
            &&& final_data(st).len() == current + terminator_len(current, required_bits(v, level))
            &&& final_data(st).len() <= required_bits(v, level)
            &&& count < vstd::arithmetic::power2::pow2(count_field_width(v, st.mode))
            &&& bits_value(bits(count, count_field_width(v, st.mode))) == count
        }),
{
    broadcast use lemma_bits_len;

    let st = resolve(content, level);
    let v = st.version->0 as int;
    let count = char_count(content, st.mode) as int;
    lemma_resolve_version(st.mode, level, count);
    lemma_packed_len(content, st.mode);
    lemma_capacity_fits(v, level, st.mode);
    lemma_packed_len_monotone(st.mode, count, capacity(v, level, st.mode));
    lemma_bits_value(count as nat, count_field_width(v, st.mode));
}

} // verus!
