use crate::error::QRError;
use vstd::prelude::*;
use vstd::utf8::*;

verus! {

/// The encoding modes, from the densest alphabet to the most general one.
#[derive(Debug, Clone, Copy, PartialEq, Eq, Structural)]
pub enum InputMode {
    Numeric,
    Alphanumeric,
    Byte,
}

/// The 4-bit mode indicator that opens the data of `mode`.
pub open spec fn mode_indicator(mode: InputMode) -> u8 {
    match mode {
        InputMode::Numeric => 0b0001,
        InputMode::Alphanumeric => 0b0010,
        InputMode::Byte => 0b0100,
    }
}

/// Width in bits of the character-count field, which depends on the version range and the mode.
pub open spec fn count_field_width(version: int, mode: InputMode) -> nat {
    if version <= 9 {
        match mode {
            InputMode::Numeric => 10,
            InputMode::Alphanumeric => 9,
            InputMode::Byte => 8,
        }
    } else if version <= 26 {
        match mode {
            InputMode::Numeric => 12,
            InputMode::Alphanumeric => 11,
            InputMode::Byte => 16,
        }
    } else {
        match mode {
            InputMode::Numeric => 14,
            InputMode::Alphanumeric => 13,
            InputMode::Byte => 16,
        }
    }
}

impl InputMode {
    /// The mode indicator of this mode.
    pub fn get_indicator(self) -> (r: u8)
        ensures
            r == mode_indicator(self),
    {
        match self {
            InputMode::Numeric => 0b0001,
            InputMode::Alphanumeric => 0b0010,
            InputMode::Byte => 0b0100,
        }
    }

    /// Width of the character-count field of this mode in symbols of `version`.
    pub fn character_count_bits(self, version: u8) -> (r: usize)
        requires
            1 <= version <= 40,
        ensures
            r == count_field_width(version as int, self),
    {
        if version <= 9 {
            match self {
                InputMode::Numeric => 10,
                InputMode::Alphanumeric => 9,
                InputMode::Byte => 8,
            }
        } else if version <= 26 {
            match self {
                InputMode::Numeric => 12,
                InputMode::Alphanumeric => 11,
                InputMode::Byte => 16,
            }
        } else {
            match self {
                InputMode::Numeric => 14,
                InputMode::Alphanumeric => 13,
                InputMode::Byte => 16,
            }
        }
    }
}

pub open spec fn is_digit_char(c: char) -> bool {
    '0' <= c <= '9'
}

/// The 45 characters of the alphanumeric alphabet: digits, upper-case letters, space and
/// `$ % * + - . / :`.
pub open spec fn is_alphanumeric_char(c: char) -> bool {
    ||| is_digit_char(c)
    ||| 'A' <= c <= 'Z'
    ||| c == ' '
    ||| c == '$'
    ||| c == '%'
    ||| c == '*'
    ||| c == '+'
    ||| c == '-'
    ||| c == '.'
    ||| c == '/'
    ||| c == ':'
}

pub open spec fn all_digits(s: Seq<char>) -> bool {
    forall|i: int| 0 <= i < s.len() ==> is_digit_char(#[trigger] s[i])
}

pub open spec fn all_alphanumeric(s: Seq<char>) -> bool {
    forall|i: int| 0 <= i < s.len() ==> is_alphanumeric_char(#[trigger] s[i])
}

/// The narrowest mode whose alphabet holds every character of `s`.
pub open spec fn classify(s: Seq<char>) -> InputMode {
    if all_digits(s) {
        InputMode::Numeric
    } else if all_alphanumeric(s) {
        InputMode::Alphanumeric
    } else {
        InputMode::Byte
    }
}

/// Length of the UTF-8 encoding of `s`, in bytes.
pub open spec fn utf8_len(s: Seq<char>) -> nat {
    encode_utf8(s).len()
}

/// How many characters `s` counts as in `mode`: bytes in byte mode, characters otherwise.
pub open spec fn char_count(s: Seq<char>, mode: InputMode) -> nat {
    match mode {
        InputMode::Byte => utf8_len(s),
        _ => s.len(),
    }
}

/// Largest content, in bytes, that any version and level can hold in `mode`.
pub open spec fn max_length(mode: InputMode) -> nat {
    match mode {
        InputMode::Numeric => 7089,
        InputMode::Alphanumeric => 4296,
        InputMode::Byte => 2953,
    }
}

/// Digit-only text is numeric; text of the alphanumeric alphabet with a character that is
/// not a digit is alphanumeric; any other text is byte.
pub proof fn lemma_classification(s: Seq<char>)
    ensures
        all_digits(s) ==> classify(s) == InputMode::Numeric,
        all_alphanumeric(s) && (exists|i: int| 0 <= i < s.len() && !is_digit_char(#[trigger] s[i]))
            ==> classify(s) == InputMode::Alphanumeric,
        !all_alphanumeric(s) ==> classify(s) == InputMode::Byte,
{
}

/// Text of the alphanumeric alphabet is ASCII, so its byte length is its character count.
pub proof fn lemma_alphanumeric_utf8_len(s: Seq<char>)
    requires
        all_alphanumeric(s),
    ensures
        utf8_len(s) == s.len(),
{
    assert(is_ascii_chars(s)) by {
        assert forall|i: int| 0 <= i < s.len() implies '\0' <= #[trigger] s[i] <= '\u{7f}' by {
            assert(is_alphanumeric_char(s[i]));
        }
    }
    is_ascii_chars_encode_utf8(s);
}

/// In every mode but byte, the content is alphanumeric, so the character count is the byte
/// length.
pub proof fn lemma_char_count_is_utf8_len(s: Seq<char>)
    ensures
        char_count(s, classify(s)) == utf8_len(s),
{
    if classify(s) != InputMode::Byte {
        assert(all_alphanumeric(s)) by {
            if all_digits(s) {
                assert forall|i: int| 0 <= i < s.len() implies is_alphanumeric_char(
                    #[trigger] s[i],
                ) by {
                    assert(is_digit_char(s[i]));
                }
            }
        }
        lemma_alphanumeric_utf8_len(s);
    }
}

/// Whether `c` belongs to the alphanumeric alphabet.
pub fn is_alphanumeric(c: char) -> (r: bool)
    ensures
        r == is_alphanumeric_char(c),
{
    ('0' <= c && c <= '9') || ('A' <= c && c <= 'Z') || c == ' ' || c == '$' || c == '%' || c
        == '*' || c == '+' || c == '-' || c == '.' || c == '/' || c == ':'
}

/// Length of `text` in UTF-8 bytes.
pub fn utf8_length(text: &str) -> (r: usize)
    ensures
        r == utf8_len(text@),
{
    text.as_bytes().len()
}

/// The characters of `text`, in order.
pub fn chars_of(text: &str) -> (r: Vec<char>)
    ensures
        r@ == text@,
{
    let mut out: Vec<char> = Vec::new();
    for c in it: text.chars()
        invariant
            out@ == it.seq().subrange(0, it.index() as int),
    {
        out.push(c);
    }
    out
}

/// The mode of the characters `chars`.
fn classify_chars(chars: &Vec<char>) -> (r: InputMode)
    ensures
        r == classify(chars@),
{
    let mut digits = true;
    let mut alphanumeric = true;
    let mut i: usize = 0;
    while i < chars.len()
        invariant
            i <= chars@.len(),
            digits == all_digits(chars@.subrange(0, i as int)),
            alphanumeric == all_alphanumeric(chars@.subrange(0, i as int)),
        decreases chars@.len() - i,
    {
        let c = chars[i];
        let ghost before = chars@.subrange(0, i as int);
        let ghost after = chars@.subrange(0, i as int + 1);
        assert(after == before.push(c));
        digits = digits && '0' <= c && c <= '9';
        alphanumeric = alphanumeric && is_alphanumeric(c);
        i = i + 1;
        assert(digits == all_digits(after)) by {
            if all_digits(after) {
                assert(is_digit_char(after[i - 1]));
            }
        }
        assert(alphanumeric == all_alphanumeric(after)) by {
            if all_alphanumeric(after) {
                assert(is_alphanumeric_char(after[i - 1]));
            }
        }
    }
    assert(chars@.subrange(0, i as int) == chars@);
    if digits {
        InputMode::Numeric
    } else if alphanumeric {
        InputMode::Alphanumeric
    } else {
        InputMode::Byte
    }
}

/// Text to encode, with the mode its characters call for.
#[derive(Debug, Clone)]
pub struct QRInput {
    content: String,
    mode: InputMode,
}

impl QRInput {
    /// The characters of the content.
    pub closed spec fn content(&self) -> Seq<char> {
        self.content@
    }

    /// The stored mode.
    pub closed spec fn mode(&self) -> InputMode {
        self.mode
    }

    /// The stored mode is the one the content calls for.
    pub open spec fn wf(&self) -> bool {
        self.mode() == classify(self.content())
    }

    /// Empty content in numeric mode.
    pub fn new() -> (r: Self)
        ensures
            r.wf(),
            r.content() == Seq::<char>::empty(),
            r.mode() == InputMode::Numeric,
    {
        QRInput { content: String::new(), mode: InputMode::Numeric }
    }

    pub fn get_content(&self) -> (r: &str)
        ensures
            r@ == self.content(),
    {
        self.content.as_str()
    }

    /// Stores `text` and the mode it calls for, and returns that mode. Empty text is
    /// refused and leaves the input as it was.
    pub fn set_content(&mut self, text: &str) -> (r: Result<InputMode, QRError>)
        ensures
            text@.len() == 0 ==> (r matches Err(QRError::InvalidInput(_))),
            text@.len() == 0 ==> *final(self) == *old(self),
            text@.len() > 0 ==> r == Ok::<InputMode, QRError>(classify(text@)),
            text@.len() > 0 ==> final(self).content() == text@,
            text@.len() > 0 ==> final(self).mode() == classify(text@),
    {
        if text.is_empty() {
            return Err(QRError::InvalidInput("Input text cannot be empty".to_owned()));
        }
        self.content = text.to_owned();
        self.determine_mode();
        Ok(self.mode)
    }

    pub fn get_mode(&self) -> (r: InputMode)
        ensures
            r == self.mode(),
    {
        self.mode
    }

    fn determine_mode(&mut self)
        ensures
            final(self).content() == old(self).content(),
            final(self).mode() == classify(old(self).content()),
    {
        let chars = chars_of(self.content.as_str());
        self.mode = classify_chars(&chars);
    }

    pub fn get_mode_indicator(&self) -> (r: u8)
        ensures
            r == mode_indicator(self.mode()),
    {
        self.mode.get_indicator()
    }

    /// The value of the character-count field: the character count of the content in its
    /// mode. A version must be given, as the field exists only in a symbol.
    pub fn calculate_character_count_indicator(&self, version: Option<u8>) -> (r: u16)
        requires
            self.wf(),
            version is Some,
            char_count(self.content(), self.mode()) < 0x10000,
        ensures
            r == char_count(self.content(), self.mode()),
    {
        proof {
            lemma_char_count_is_utf8_len(self.content());
        }
        let count = utf8_length(self.content.as_str());
        count as u16
    }

    /// The mode indicator and the character-count value.
    pub fn get_indicator(&self, version: Option<u8>) -> (r: (u8, u16))
        requires
            self.wf(),
            version is Some,
            char_count(self.content(), self.mode()) < 0x10000,
        ensures
            r.0 == mode_indicator(self.mode()),
            r.1 == char_count(self.content(), self.mode()),
    {
        let mode_indicator = self.get_mode_indicator();
        let char_count_indicator = self.calculate_character_count_indicator(version);
        (mode_indicator, char_count_indicator)
    }

    /// Refuses content whose UTF-8 length exceeds the largest capacity of its mode.
    pub fn validate_length(&self) -> (r: Result<(), QRError>)
        ensures
            r is Ok <==> utf8_len(self.content()) <= max_length(self.mode()),
            r is Err ==> (r matches Err(QRError::InvalidLength(_))),
    {
        let len = utf8_length(self.content.as_str());
        let max_length: usize = match self.mode {
            InputMode::Numeric => 7089,
            InputMode::Alphanumeric => 4296,
            InputMode::Byte => 2953,
        };
        if len > max_length {
            return Err(
                QRError::InvalidLength("Input length exceeds the maximum for its mode".to_owned()),
            );
        }
        Ok(())
    }
}

} // verus!
