use crate::bits::{bits, to_binary, zero_bits, zeros};
use crate::error::QRError;
use crate::input::{
    all_digits, char_count, chars_of, classify, count_field_width, is_alphanumeric_char,
    is_digit_char, lemma_char_count_is_utf8_len, mode_indicator, utf8_length, InputMode, QRInput,
};
use crate::versions::{
    capacity, data_codeword_count, data_codewords, level_index,
    lemma_capacity_decreases_with_level, VersionInfo,
};
use vstd::prelude::*;
use vstd::string::*;

verus! {

/// The four error-correction levels, from the most data and least redundancy (L) to the
/// least data and most redundancy (H).
#[derive(Debug, Clone, Copy, PartialEq, Eq, Structural)]
pub enum ErrorCorrectionLevel {
    L,
    M,
    Q,
    H,
}

impl ErrorCorrectionLevel {
    /// Position of the level in the order L, M, Q, H.
    pub fn index(self) -> (r: usize)
        ensures
            r == level_index(self),
    {
        match self {
            ErrorCorrectionLevel::L => 0,
            ErrorCorrectionLevel::M => 1,
            ErrorCorrectionLevel::Q => 2,
            ErrorCorrectionLevel::H => 3,
        }
    }
}

/// Largest content, in bytes, that `level` accepts in any mode.
pub open spec fn level_max_length(level: ErrorCorrectionLevel) -> nat {
    match level {
        ErrorCorrectionLevel::L => 7089,
        ErrorCorrectionLevel::M => 5596,
        ErrorCorrectionLevel::Q => 3993,
        ErrorCorrectionLevel::H => 3057,
    }
}

/// The first version, from `from` up to 40, that holds `count` characters of `mode` at
/// `level`.
pub open spec fn first_fitting_version(
    mode: InputMode,
    level: ErrorCorrectionLevel,
    count: int,
    from: int,
) -> Option<u8>
    decreases 41 - from,
{
    if from < 1 || from > 40 {
        None
    } else if count <= capacity(from, level, mode) {
        Some(from as u8)
    } else {
        first_fitting_version(mode, level, count, from + 1)
    }
}

/// The smallest version that holds `count` characters of `mode` at `level`, if any does.
pub open spec fn resolve_version(
    mode: InputMode,
    level: ErrorCorrectionLevel,
    count: int,
) -> Option<u8> {
    first_fitting_version(mode, level, count, 1)
}

/// The state of an encoder, as values.
pub struct EncodedInput {
    pub content: Seq<char>,
    pub mode: InputMode,
    pub level: ErrorCorrectionLevel,
    pub version: Option<u8>,
}

/// The state after `content` is set at `level`: the mode its characters call for and the
/// version resolved for both.
pub open spec fn resolve(content: Seq<char>, level: ErrorCorrectionLevel) -> EncodedInput {
    let mode = classify(content);
    EncodedInput {
        content,
        mode,
        level,
        version: resolve_version(mode, level, char_count(content, mode) as int),
    }
}

proof fn lemma_first_fitting_version(
    mode: InputMode,
    level: ErrorCorrectionLevel,
    count: int,
    from: int,
)
    requires
        1 <= from,
    ensures
        first_fitting_version(mode, level, count, from) matches Some(v) ==> {
            &&& from <= v <= 40
            &&& count <= capacity(v as int, level, mode)
            &&& forall|w: int| from <= w < v ==> count > #[trigger] capacity(w, level, mode)
        },
        first_fitting_version(mode, level, count, from) is None ==> forall|w: int|
            from <= w <= 40 ==> count > #[trigger] capacity(w, level, mode),
    decreases 41 - from,
{
    if from <= 40 && count > capacity(from, level, mode) {
        lemma_first_fitting_version(mode, level, count, from + 1);
    }
}

/// The resolved version is the smallest that holds the content; none is resolved when no
/// version up to 40 holds it.
pub proof fn lemma_resolve_version(mode: InputMode, level: ErrorCorrectionLevel, count: int)
    ensures
        resolve_version(mode, level, count) matches Some(v) ==> {
            &&& 1 <= v <= 40
            &&& count <= capacity(v as int, level, mode)
            &&& forall|w: int| 1 <= w < v ==> count > #[trigger] capacity(w, level, mode)
        },
        resolve_version(mode, level, count) is None ==> forall|w: int|
            1 <= w <= 40 ==> count > #[trigger] capacity(w, level, mode),
{
    lemma_first_fitting_version(mode, level, count, 1);
}

/// Raising the level for the same content never lowers the resolved version, and never
/// makes content resolvable that was not.
pub proof fn lemma_version_monotone_in_level(
    content: Seq<char>,
    weaker: ErrorCorrectionLevel,
    stronger: ErrorCorrectionLevel,
)
    requires
        level_index(weaker) <= level_index(stronger),
    ensures
        resolve(content, stronger).version matches Some(vs) ==> (resolve(
            content,
            weaker,
        ).version matches Some(vw) && vw <= vs),
        resolve(content, weaker).version is None ==> resolve(content, stronger).version is None,
{
    let mode = classify(content);
    let count = char_count(content, mode) as int;
    lemma_resolve_version(mode, weaker, count);
    lemma_resolve_version(mode, stronger, count);
    if let Some(vs) = resolve_version(mode, stronger, count) {
        lemma_capacity_decreases_with_level(vs as int, weaker, stronger, mode);
        if let Some(vw) = resolve_version(mode, weaker, count) {
            if vw > vs {
                assert(count > capacity(vs as int, weaker, mode));
            }
        } else {
            assert(count > capacity(vs as int, weaker, mode));
        }
    }
}

/// Setting the same content a second time leaves the mode and the version as the first time
/// did: both depend on the content and the level alone.
pub proof fn lemma_resolve_idempotent(content: Seq<char>, level: ErrorCorrectionLevel)
    ensures
        resolve(resolve(content, level).content, resolve(content, level).level) == resolve(
            content,
            level,
        ),
{
}

/// Value of a decimal digit.
pub open spec fn digit_value(c: char) -> int {
    c as int - '0' as int
}

/// The number that a string of decimal digits stands for.
pub open spec fn decimal_value(s: Seq<char>) -> int
    decreases s.len(),
{
    if s.len() == 0 {
        0
    } else {
        10 * decimal_value(s.drop_last()) + digit_value(s.last())
    }
}

/// Group `k` of numeric content: the digits from `3 * k` up to three of them.
pub open spec fn numeric_group(s: Seq<char>, k: int) -> Seq<char> {
    s.subrange(3 * k, if 3 * k + 3 <= s.len() { 3 * k + 3 } else { s.len() as int })
}

/// Bits of a numeric group: 10 for three digits, 7 for two, 4 for one.
pub open spec fn numeric_group_width(len: nat) -> nat {
    if len == 3 {
        10
    } else if len == 2 {
        7
    } else {
        4
    }
}

/// Numeric packing: each group of three digits (the last may hold one or two) as its
/// decimal value in 10, 7 or 4 bits.
pub open spec fn numeric_groups(s: Seq<char>) -> Seq<Seq<char>> {
    Seq::new(
        ((s.len() + 2) / 3) as nat,
        |k: int|
            {
                let g = numeric_group(s, k);
                bits(decimal_value(g) as nat, numeric_group_width(g.len()))
            },
    )
}

/// Value of a character in the alphanumeric table: digits 0 to 9, letters 10 to 35, then
/// space, `$`, `%`, `*`, `+`, `-`, `.`, `/` and `:` from 36 to 44.
pub open spec fn alphanumeric_value(c: char) -> int {
    if '0' <= c <= '9' {
        c as int - '0' as int
    } else if 'A' <= c <= 'Z' {
        c as int - 'A' as int + 10
    } else if c == ' ' {
        36
    } else if c == '$' {
        37
    } else if c == '%' {
        38
    } else if c == '*' {
        39
    } else if c == '+' {
        40
    } else if c == '-' {
        41
    } else if c == '.' {
        42
    } else if c == '/' {
        43
    } else {
        44
    }
}

/// Alphanumeric packing: each pair `(a, b)` as `45 * a + b` in 11 bits, a last single
/// character as its value in 6 bits.
pub open spec fn alphanumeric_groups(s: Seq<char>) -> Seq<Seq<char>> {
    Seq::new(
        ((s.len() + 1) / 2) as nat,
        |k: int|
            if 2 * k + 1 < s.len() {
                bits(
                    (45 * alphanumeric_value(s[2 * k]) + alphanumeric_value(s[2 * k + 1])) as nat,
                    11,
                )
            } else {
                bits(alphanumeric_value(s[2 * k]) as nat, 6)
            },
    )
}

/// Byte packing: each byte in 8 bits.
pub open spec fn byte_groups(bytes: Seq<u8>) -> Seq<Seq<char>> {
    Seq::new(bytes.len(), |i: int| bits(bytes[i] as nat, 8))
}

/// The bit groups of `content` packed in `mode`, in the order of the content.
pub open spec fn bit_groups(content: Seq<char>, mode: InputMode) -> Seq<Seq<char>> {
    match mode {
        InputMode::Numeric => numeric_groups(content),
        InputMode::Alphanumeric => alphanumeric_groups(content),
        InputMode::Byte => byte_groups(vstd::utf8::encode_utf8(content)),
    }
}

/// The characters of each string.
pub open spec fn strings_view(v: Seq<String>) -> Seq<Seq<char>> {
    v.map_values(|g: String| g@)
}

/// Number of data bits that `version` holds at `level`.
pub open spec fn required_bits(version: int, level: ErrorCorrectionLevel) -> int {
    8 * data_codewords(version, level)
}

/// The mode indicator, the character-count field and the packed data of `st`, in this order.
pub open spec fn header_and_data(st: EncodedInput) -> Seq<char>
    recommends
        st.version is Some,
{
    bits(mode_indicator(st.mode) as nat, 4) + bits(
        char_count(st.content, st.mode),
        count_field_width(st.version->0 as int, st.mode),
    ) + bit_groups(st.content, st.mode).flatten()
}

/// Length of the terminator after `current` bits: up to four zero bits, never past
/// `required`.
pub open spec fn terminator_len(current: int, required: int) -> int {
    if current >= required {
        0
    } else if required - current < 4 {
        required - current
    } else {
        4
    }
}

/// The complete bit string of `st`: indicators, data and terminator.
pub open spec fn final_data(st: EncodedInput) -> Seq<char>
    recommends
        st.version is Some,
{
    let data = header_and_data(st);
    data + zeros(
        terminator_len(data.len() as int, required_bits(st.version->0 as int, st.level)) as nat,
    )
}

/// The strings of `groups`, one after the other.
fn join_bits(groups: &Vec<String>) -> (r: String)
    ensures
        r@ == strings_view(groups@).flatten(),
{
    let mut joined = String::new();
    for k in 0..groups.len()
        invariant
            joined@ == strings_view(groups@.subrange(0, k as int)).flatten(),
    {
        proof {
            let before = strings_view(groups@.subrange(0, k as int));
            let next = groups@[k as int]@;
            assert(strings_view(groups@.subrange(0, k as int + 1)) == before.push(next));
            before.lemma_flatten_push(groups@[k as int]@);
        }
        joined.append(groups[k].as_str());
    }
    assert(groups@.subrange(0, groups@.len() as int) == groups@);
    joined
}

fn digit_at(chars: &Vec<char>, i: usize) -> (r: u32)
    requires
        i < chars@.len(),
        is_digit_char(chars@[i as int]),
    ensures
        r == digit_value(chars@[i as int]),
        r < 10,
{
    (chars[i] as u32) - ('0' as u32)
}

/// The number that the digits `chars[start..end]` stand for, at most three of them.
fn group_value(chars: &Vec<char>, start: usize, end: usize) -> (r: u32)
    requires
        start < end <= chars@.len(),
        end - start <= 3,
        forall|i: int| start <= i < end ==> is_digit_char(#[trigger] chars@[i]),
    ensures
        r == decimal_value(chars@.subrange(start as int, end as int)),
{
    let mut value: u32 = 0;
    let mut j: usize = start;
    while j < end
        invariant
            start <= j <= end,
            end <= chars@.len(),
            end - start <= 3,
            forall|i: int| start <= i < end ==> is_digit_char(#[trigger] chars@[i]),
            value == decimal_value(chars@.subrange(start as int, j as int)),
            j - start == 0 ==> value == 0,
            j - start == 1 ==> value < 10,
            j - start == 2 ==> value < 100,
        decreases end - j,
    {
        let d = digit_at(chars, j);
        let ghost before = chars@.subrange(start as int, j as int);
        let ghost after = chars@.subrange(start as int, j as int + 1);
        assert(after.drop_last() == before);
        value = 10 * value + d;
        j = j + 1;
    }
    value
}

/// Content, its mode, an error-correction level and the smallest version that holds the
/// content at that level.
#[derive(Debug, Clone)]
pub struct QRData {
    input: QRInput,
    ec_level: ErrorCorrectionLevel,
    version: Option<u8>,
}

impl View for QRData {
    type V = EncodedInput;

    closed spec fn view(&self) -> EncodedInput {
        EncodedInput {
            content: self.input.content(),
            mode: self.input.mode(),
            level: self.ec_level,
            version: self.version,
        }
    }
}

impl QRData {
    /// The state is the one that its content and level resolve to, or the empty state that
    /// nothing has been resolved for yet.
    pub open spec fn wf(&self) -> bool {
        ||| self@ == resolve(self@.content, self@.level)
        ||| {
            &&& self@.content.len() == 0
            &&& self@.mode == InputMode::Numeric
            &&& self@.version is None
        }
    }

    /// No content, numeric mode, level M, no version.
    pub fn new() -> (r: Self)
        ensures
            r.wf(),
            r@.content.len() == 0,
            r@.mode == InputMode::Numeric,
            r@.level == ErrorCorrectionLevel::M,
            r@.version is None,
    {
        QRData { input: QRInput::new(), ec_level: ErrorCorrectionLevel::M, version: None }
    }

    pub fn get_input(&self) -> (r: &QRInput)
        ensures
            r.content() == self@.content,
            r.mode() == self@.mode,
    {
        &self.input
    }

    /// Sets the content, resolves its mode and version at the current level, and returns
    /// the mode. Empty text is refused and changes nothing.
    pub fn set_content(&mut self, text: &str) -> (r: Result<InputMode, QRError>)
        requires
            old(self).wf(),
        ensures
            final(self).wf(),
            text@.len() == 0 ==> (r matches Err(QRError::InvalidInput(_))),
            text@.len() == 0 ==> final(self)@ == old(self)@,
            text@.len() > 0 ==> r == Ok::<InputMode, QRError>(classify(text@)),
            text@.len() > 0 ==> final(self)@ == resolve(text@, old(self)@.level),
    {
        let mode = match self.input.set_content(text) {
            Ok(mode) => mode,
            Err(e) => {
                return Err(e);
            },
        };
        let _ = self.determine_version();
        Ok(mode)
    }

    pub fn get_ec_level(&self) -> (r: ErrorCorrectionLevel)
        ensures
            r == self@.level,
    {
        self.ec_level
    }

    /// Sets the level and resolves the version again. Content whose UTF-8 length exceeds
    /// what `level` can hold in any mode is refused first, and nothing changes.
    pub fn set_ec_level(&mut self, level: ErrorCorrectionLevel) -> (r: Result<(), QRError>)
        requires
            old(self).wf(),
        ensures
            final(self).wf(),
            r is Err <==> crate::input::utf8_len(old(self)@.content) > level_max_length(level),
            r is Err ==> (r matches Err(QRError::InvalidLength(_))),
            r is Err ==> final(self)@ == old(self)@,
            r is Ok ==> final(self)@ == resolve(old(self)@.content, level),
    {
        let content_length = utf8_length(self.input.get_content());
        let max_length: usize = match level {
            ErrorCorrectionLevel::L => 7089,
            ErrorCorrectionLevel::M => 5596,
            ErrorCorrectionLevel::Q => 3993,
            ErrorCorrectionLevel::H => 3057,
        };
        if content_length > max_length {
            return Err(
                QRError::InvalidLength(
                    "Content length too large for the error correction level".to_owned(),
                ),
            );
        }
        self.ec_level = level;
        let _ = self.determine_version();
        Ok(())
    }

    /// Refuses content whose UTF-8 length exceeds the largest capacity of its mode.
    pub fn validate_length(&mut self) -> (r: Result<(), QRError>)
        ensures
            *final(self) == *old(self),
            r is Ok <==> crate::input::utf8_len(old(self)@.content) <= crate::input::max_length(
                old(self)@.mode,
            ),
            r is Err ==> (r matches Err(QRError::InvalidLength(_))),
    {
        self.input.validate_length()
    }

    pub fn get_version(&self) -> (r: Option<u8>)
        ensures
            r == self@.version,
    {
        self.version
    }

    fn numeric_encoding(&self) -> (r: Vec<String>)
        requires
            all_digits(self@.content),
        ensures
            strings_view(r@) == numeric_groups(self@.content),
    {
        let input = self.input.get_content();
        let chars = chars_of(input);
        let n = chars.len();
        let ghost s = self@.content;
        let mut converted_chunks: Vec<String> = Vec::new();
        let mut i: usize = 0;
        while i < n
            invariant
                chars@ == s,
                n == s.len(),
                all_digits(s),
                i <= n,
                i == if 3 * converted_chunks@.len() <= n {
                    3 * converted_chunks@.len() as int
                } else {
                    n as int
                },
                3 * converted_chunks@.len() < n + 3,
                forall|j: int|
                    0 <= j < converted_chunks@.len() ==> (#[trigger] converted_chunks@[j])@
                        == numeric_groups(s)[j],
            decreases n - i,
        {
            let ghost k = converted_chunks@.len() as int;
            let end = if n - i >= 3 {
                i + 3
            } else {
                n
            };
            assert(chars@.subrange(i as int, end as int) == numeric_group(s, k));
            let number = group_value(&chars, i, end);
            let width: usize = if end - i == 3 {
                10
            } else if end - i == 2 {
                7
            } else {
                4
            };
            let binary = to_binary(number, width);
            converted_chunks.push(binary);
            i = end;
        }
        assert(strings_view(converted_chunks@) == numeric_groups(s));
        converted_chunks
    }

    /// Value of `c` in the alphanumeric table.
    fn get_alphanumeric_value(c: char) -> (r: u8)
        requires
            is_alphanumeric_char(c),
        ensures
            r == alphanumeric_value(c),
    {
        if '0' <= c && c <= '9' {
            ((c as u32) - ('0' as u32)) as u8
        } else if 'A' <= c && c <= 'Z' {
            ((c as u32) - ('A' as u32) + 10) as u8
        } else if c == ' ' {
            36
        } else if c == '$' {
            37
        } else if c == '%' {
            38
        } else if c == '*' {
            39
        } else if c == '+' {
            40
        } else if c == '-' {
            41
        } else if c == '.' {
            42
        } else if c == '/' {
            43
        } else {
            44
        }
    }

    fn alphanumeric_encoding(&self) -> (r: Vec<String>)
        requires
            crate::input::all_alphanumeric(self@.content),
        ensures
            strings_view(r@) == alphanumeric_groups(self@.content),
    {
        let input = self.input.get_content();
        let chars = chars_of(input);
        let n = chars.len();
        let ghost s = self@.content;
        let mut converted_chunks: Vec<String> = Vec::new();
        let mut i: usize = 0;
        while i < n
            invariant
                chars@ == s,
                n == s.len(),
                crate::input::all_alphanumeric(s),
                i <= n,
                i == if 2 * converted_chunks@.len() <= n {
                    2 * converted_chunks@.len() as int
                } else {
                    n as int
                },
                2 * converted_chunks@.len() < n + 2,
                forall|j: int|
                    0 <= j < converted_chunks@.len() ==> (#[trigger] converted_chunks@[j])@
                        == alphanumeric_groups(s)[j],
            decreases n - i,
        {
            assert(is_alphanumeric_char(s[i as int]));
            let first = Self::get_alphanumeric_value(chars[i]) as u32;
            if n - i >= 2 {
                assert(is_alphanumeric_char(s[i + 1]));
                let second = Self::get_alphanumeric_value(chars[i + 1]) as u32;
                let number = first * 45 + second;
                let binary = to_binary(number, 11);
                converted_chunks.push(binary);
                i = i + 2;
            } else {
                let binary = to_binary(first, 6);
                converted_chunks.push(binary);
                i = n;
            }
        }
        assert(strings_view(converted_chunks@) == alphanumeric_groups(s));
        converted_chunks
    }

    fn byte_encoding(&self) -> (r: Vec<String>)
        ensures
            strings_view(r@) == byte_groups(vstd::utf8::encode_utf8(self@.content)),
    {
        let input = self.input.get_content();
        let bytes = input.as_bytes();
        let mut result: Vec<String> = Vec::new();
        for i in 0..bytes.len()
            invariant
                bytes@ == vstd::utf8::encode_utf8(self@.content),
                result@.len() == i,
                forall|j: int|
                    0 <= j < i ==> (#[trigger] result@[j])@ == byte_groups(bytes@)[j],
        {
            let binary = to_binary(bytes[i] as u32, 8);
            result.push(binary);
        }
        assert(strings_view(result@) == byte_groups(bytes@));
        result
    }

    /// The bit groups of the content in its mode.
    pub fn encode(&self) -> (r: Vec<String>)
        requires
            self.wf(),
        ensures
            strings_view(r@) == bit_groups(self@.content, self@.mode),
    {
        match self.input.get_mode() {
            InputMode::Numeric => self.numeric_encoding(),
            InputMode::Alphanumeric => self.alphanumeric_encoding(),
            InputMode::Byte => self.byte_encoding(),
        }
    }

    /// A resolved version lies between 1 and 40 and holds the content.
    proof fn lemma_resolved(&self)
        requires
            self.wf(),
            self@.version is Some,
        ensures
            self@ == resolve(self@.content, self@.level),
            1 <= self@.version->0 <= 40,
            char_count(self@.content, self@.mode) <= capacity(
                self@.version->0 as int,
                self@.level,
                self@.mode,
            ),
            char_count(self@.content, self@.mode) < 0x10000,
    {
        lemma_resolve_version(
            self@.mode,
            self@.level,
            char_count(self@.content, self@.mode) as int,
        );
    }

    /// The character-count value of the content at the resolved version.
    pub fn get_character_count_indicator(&mut self) -> (r: u16)
        requires
            old(self).wf(),
            old(self)@.version is Some,
        ensures
            *final(self) == *old(self),
            r == char_count(old(self)@.content, old(self)@.mode),
    {
        proof {
            self.lemma_resolved();
        }
        let version = self.get_version();
        self.input.calculate_character_count_indicator(version)
    }

    /// The mode indicator, the character-count value and the packed data bits.
    pub fn get_data(&mut self) -> (r: (u8, u16, String))
        requires
            old(self).wf(),
            old(self)@.version is Some,
        ensures
            *final(self) == *old(self),
            r.0 == mode_indicator(old(self)@.mode),
            r.1 == char_count(old(self)@.content, old(self)@.mode),
            r.2@ == bit_groups(old(self)@.content, old(self)@.mode).flatten(),
    {
        proof {
            self.lemma_resolved();
        }
        let indicators = self.input.get_indicator(self.version);
        let encoded_data = join_bits(&self.encode());
        (indicators.0, indicators.1, encoded_data)
    }

    /// The complete bit string: mode indicator, character-count field, data and terminator.
    pub fn add_terminator(&mut self) -> (r: String)
        requires
            old(self).wf(),
            old(self)@.version is Some,
        ensures
            *final(self) == *old(self),
            r@ == final_data(old(self)@),
    {
        proof {
            self.lemma_resolved();
        }
        let (mode_indicator, char_count_indicator, data_string) = self.get_data();
        let required_bits = self.get_required_bits();
        let version = match self.version {
            Some(v) => v,
            None => 1,
        };
        let width = self.input.get_mode().character_count_bits(version);
        let mut final_bits = String::new();
        final_bits.append(to_binary(mode_indicator as u32, 4).as_str());
        final_bits.append(to_binary(char_count_indicator as u32, width).as_str());
        final_bits.append(data_string.as_str());
        assert(final_bits@ == header_and_data(self@));
        let curr_len = final_bits.as_str().unicode_len();
        if curr_len >= required_bits as usize {
            return final_bits;
        }
        let remaining_bits = required_bits as usize - curr_len;
        let terminator_length = if remaining_bits < 4 {
            remaining_bits
        } else {
            4
        };
        final_bits.append(zero_bits(terminator_length).as_str());
        final_bits
    }

    /// Number of data bits that the resolved version holds at the current level.
    pub fn get_required_bits(&mut self) -> (r: u16)
        requires
            old(self).wf(),
            old(self)@.version is Some,
        ensures
            *final(self) == *old(self),
            r == required_bits(old(self)@.version->0 as int, old(self)@.level),
    {
        proof {
            self.lemma_resolved();
        }
        let version = match self.version {
            Some(v) => v,
            None => 1,
        };
        data_codeword_count(version, self.ec_level) * 8
    }

    /// The complete bit string, or an error while no version is resolved.
    pub fn get_final_data(&mut self) -> (r: Result<String, QRError>)
        requires
            old(self).wf(),
        ensures
            *final(self) == *old(self),
            old(self)@.version is None ==> (r matches Err(QRError::InvalidVersion(_))),
            old(self)@.version is Some ==> (r matches Ok(bits) && bits@ == final_data(old(self)@)),
    {
        if self.version.is_none() {
            return Err(QRError::InvalidVersion("Version not determined".to_owned()));
        }
        Ok(self.add_terminator())
    }

    /// Resolves, stores and returns the smallest version that holds the content in its mode
    /// at the current level, or none when no version does.
    pub fn determine_version(&mut self) -> (r: Result<Option<u8>, QRError>)
        requires
            old(self)@.mode == classify(old(self)@.content),
        ensures
            final(self)@ == resolve(old(self)@.content, old(self)@.level),
            r == Ok::<Option<u8>, QRError>(final(self)@.version),
    {
        let mode = self.input.get_mode();
        let length = utf8_length(self.input.get_content());
        proof {
            lemma_char_count_is_utf8_len(self@.content);
        }
        let ghost count = length as int;
        let mut version: u8 = 1;
        while version <= 40
            invariant
                1 <= version <= 41,
                self.input == old(self).input,
                self.ec_level == old(self).ec_level,
                mode == self@.mode,
                mode == classify(self@.content),
                count == char_count(self@.content, mode),
                length == count,
                resolve_version(mode, self@.level, count) == first_fitting_version(
                    mode,
                    self@.level,
                    count,
                    version as int,
                ),
            decreases 41 - version,
        {
            let info = VersionInfo::for_version(version);
            let capacity = info.capacity_by_ec[self.ec_level.index()].for_mode(mode);
            if length <= capacity {
                self.version = Some(version);
                return Ok(self.version);
            }
            version = version + 1;
        }
        self.version = None;
        Ok(None)
    }
}

} // verus!
