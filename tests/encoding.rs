use qrcodegenerator::bits::{format_bit_string, to_binary, zero_bits};
use qrcodegenerator::versions::{data_codeword_count, CapacityInfo, VersionInfo};
use qrcodegenerator::{ErrorCorrectionLevel, InputMode, QRData, QRError, QRInput};

fn data_with(text: &str, level: ErrorCorrectionLevel) -> QRData {
    let mut data = QRData::new();
    data.set_ec_level(level).unwrap();
    data.set_content(text).unwrap();
    data
}

const LEVELS: [ErrorCorrectionLevel; 4] = [
    ErrorCorrectionLevel::L,
    ErrorCorrectionLevel::M,
    ErrorCorrectionLevel::Q,
    ErrorCorrectionLevel::H,
];

#[test]
fn digits_classify_as_numeric() {
    let mut input = QRInput::new();
    assert_eq!(input.set_content("0123456789").unwrap(), InputMode::Numeric);
    assert_eq!(input.get_mode(), InputMode::Numeric);
    assert_eq!(input.get_content(), "0123456789");
}

#[test]
fn alphanumeric_alphabet_classifies_as_alphanumeric() {
    let mut input = QRInput::new();
    assert_eq!(input.set_content("AC-42").unwrap(), InputMode::Alphanumeric);
    assert_eq!(input.set_content("HELLO WORLD:123").unwrap(), InputMode::Alphanumeric);
    assert_eq!(input.set_content("$%*+-./: ").unwrap(), InputMode::Alphanumeric);
    assert_eq!(input.set_content(" ").unwrap(), InputMode::Alphanumeric);
    assert_eq!(input.set_content("12A").unwrap(), InputMode::Alphanumeric);
}

#[test]
fn other_text_classifies_as_byte() {
    let mut input = QRInput::new();
    assert_eq!(input.set_content("Hello, World!").unwrap(), InputMode::Byte);
    assert_eq!(input.set_content("hello").unwrap(), InputMode::Byte);
    assert_eq!(input.set_content("Test@email.com").unwrap(), InputMode::Byte);
    assert_eq!(input.set_content("こんにちは").unwrap(), InputMode::Byte);
    assert_eq!(input.set_content("Hello 👋 World").unwrap(), InputMode::Byte);
}

#[test]
fn numeric_packing_of_six_digits() {
    let data = data_with("123456", ErrorCorrectionLevel::M);
    let groups = data.encode();
    assert_eq!(groups, vec!["0001111011".to_string(), "0111001000".to_string()]);
    assert_eq!(groups.join(""), "0001111011".to_string() + "0111001000");
}

#[test]
fn numeric_packing_with_two_digit_tail() {
    let data = data_with("12345", ErrorCorrectionLevel::M);
    assert_eq!(data.encode(), vec!["0001111011".to_string(), "0101101".to_string()]);
}

#[test]
fn numeric_packing_with_one_digit_tail_and_leading_zero() {
    let data = data_with("01234567", ErrorCorrectionLevel::M);
    assert_eq!(
        data.encode(),
        vec!["0000001100".to_string(), "0101011001".to_string(), "1000011".to_string()]
    );
    let data = data_with("7", ErrorCorrectionLevel::M);
    assert_eq!(data.encode(), vec!["0111".to_string()]);
}

#[test]
fn alphanumeric_packing_of_pairs() {
    let data = data_with("AC-42", ErrorCorrectionLevel::M);
    assert_eq!(
        data.encode(),
        vec!["00111001110".to_string(), "11100111001".to_string(), "000010".to_string()]
    );
}

#[test]
fn alphanumeric_single_character() {
    let data = data_with("A", ErrorCorrectionLevel::M);
    assert_eq!(data.encode(), vec!["001010".to_string()]);
    let data = data_with(":", ErrorCorrectionLevel::M);
    assert_eq!(data.encode(), vec!["101100".to_string()]);
}

#[test]
fn byte_packing_uses_utf8_bytes() {
    let mut data = data_with("Hé", ErrorCorrectionLevel::M);
    assert_eq!(
        data.encode(),
        vec!["01001000".to_string(), "11000011".to_string(), "10101001".to_string()]
    );
    assert_eq!(data.get_character_count_indicator(), 3);
}

#[test]
fn stronger_level_never_lowers_version() {
    for text in ["HELLO WORLD", "12345", "Hello, World!"] {
        let mut previous = 0u8;
        for level in LEVELS {
            let data = data_with(text, level);
            let version = data.get_version().unwrap();
            assert!(version >= previous);
            previous = version;
        }
    }
    let digits = "7".repeat(3000);
    let versions: Vec<Option<u8>> = LEVELS.iter().map(|l| data_with(&digits, *l).get_version()).collect();
    assert_eq!(versions, vec![Some(25), Some(29), Some(35), Some(40)]);
    let letters = "A".repeat(1900);
    let versions: Vec<Option<u8>> = LEVELS.iter().map(|l| data_with(&letters, *l).get_version()).collect();
    assert_eq!(versions, vec![Some(26), Some(30), Some(36), None]);
}

#[test]
fn hello_world_final_data_at_q() {
    let mut data = data_with("HELLO WORLD", ErrorCorrectionLevel::Q);
    assert_eq!(data.get_version(), Some(1));
    assert_eq!(data.get_required_bits(), 104);
    let bits = data.get_final_data().unwrap();
    assert_eq!(
        bits,
        "001000000101101100001011011110001101000101110010110111000100110101000011010000"
    );
    assert_eq!(bits.len(), 4 + 9 + 61 + 4);
}

#[test]
fn final_data_layout_of_numeric_content() {
    let mut data = data_with("12345", ErrorCorrectionLevel::M);
    let (mode, count, packed) = data.get_data();
    assert_eq!(mode, 0b0001);
    assert_eq!(count, 5);
    assert_eq!(packed, "00010000000101000111101101011010000"[14..31].to_string());
    let bits = data.get_final_data().unwrap();
    assert_eq!(bits, "00010000000101000111101101011010000");
    assert_eq!(bits.len(), 4 + 10 + packed.len() + 4);
    assert!(bits.len() <= data.get_required_bits() as usize);
}

#[test]
fn final_data_of_byte_and_alphanumeric_content() {
    let mut data = data_with("Hé", ErrorCorrectionLevel::M);
    assert_eq!(data.get_final_data().unwrap(), "0100000000110100100011000011101010010000");
    let mut data = data_with("AC-42", ErrorCorrectionLevel::M);
    assert_eq!(
        data.get_final_data().unwrap(),
        "001000000010100111001110111001110010000100000"
    );
}

#[test]
fn terminator_is_cut_short_before_required_bits() {
    let mut data = data_with(&"1".repeat(17), ErrorCorrectionLevel::H);
    assert_eq!(data.get_version(), Some(1));
    assert_eq!(data.get_required_bits(), 72);
    let bits = data.get_final_data().unwrap();
    assert_eq!(bits.len(), 72);
    assert!(bits.ends_with("10"));
}

#[test]
fn full_capacity_gets_no_terminator() {
    let mut data = data_with(&"1".repeat(7089), ErrorCorrectionLevel::L);
    assert_eq!(data.get_version(), Some(40));
    assert_eq!(data.get_required_bits(), 23648);
    let bits = data.get_final_data().unwrap();
    assert_eq!(bits.len(), 23648);
    assert_eq!(&bits[..18], "000101101110110001");
}

#[test]
fn count_field_widens_with_version() {
    let mut data = data_with(&"1".repeat(250), ErrorCorrectionLevel::M);
    assert_eq!(data.get_version(), Some(6));
    assert_eq!(data.get_character_count_indicator(), 250);
    let bits = data.get_final_data().unwrap();
    assert_eq!(&bits[..14], "00010011111010");
    assert_eq!(bits.len(), 4 + 10 + 834 + 4);
    assert_eq!(InputMode::Numeric.character_count_bits(10), 12);
    assert_eq!(InputMode::Alphanumeric.character_count_bits(26), 11);
    assert_eq!(InputMode::Byte.character_count_bits(27), 16);
    assert_eq!(InputMode::Alphanumeric.character_count_bits(40), 13);
}

#[test]
fn empty_content_is_refused() {
    let mut data = QRData::new();
    assert!(matches!(data.set_content(""), Err(QRError::InvalidInput(_))));
    assert_eq!(data.get_version(), None);
    let mut input = QRInput::new();
    assert!(matches!(input.set_content(""), Err(QRError::InvalidInput(_))));
}

#[test]
fn oversized_numeric_content_resolves_no_version() {
    let digits = "9".repeat(21000);
    for level in LEVELS {
        let mut data = QRData::new();
        data.set_ec_level(level).unwrap();
        assert_eq!(data.set_content(&digits).unwrap(), InputMode::Numeric);
        assert_eq!(data.get_version(), None);
        assert_eq!(data.determine_version().unwrap(), None);
        assert!(matches!(data.get_final_data(), Err(QRError::InvalidVersion(_))));
    }
}

#[test]
fn repeated_reads_and_sets_agree() {
    let mut data = data_with("HELLO WORLD", ErrorCorrectionLevel::H);
    assert_eq!(data.get_version(), data.get_version());
    let first = (data.set_content("HELLO WORLD").unwrap(), data.get_version());
    let second = (data.set_content("HELLO WORLD").unwrap(), data.get_version());
    assert_eq!(first, second);
    assert_eq!(first, (InputMode::Alphanumeric, Some(2)));
}

#[test]
fn new_encoder_has_no_version() {
    let mut data = QRData::new();
    assert_eq!(data.get_version(), None);
    assert!(matches!(data.get_ec_level(), ErrorCorrectionLevel::M));
    assert_eq!(data.get_input().get_mode(), InputMode::Numeric);
    assert!(matches!(data.get_final_data(), Err(QRError::InvalidVersion(_))));
}

#[test]
fn level_change_refuses_content_too_long_for_it() {
    let mut data = data_with(&"5".repeat(4000), ErrorCorrectionLevel::L);
    assert!(matches!(data.set_ec_level(ErrorCorrectionLevel::H), Err(QRError::InvalidLength(_))));
    assert!(matches!(data.get_ec_level(), ErrorCorrectionLevel::L));
    assert!(data.set_ec_level(ErrorCorrectionLevel::M).is_ok());
    assert!(matches!(data.get_ec_level(), ErrorCorrectionLevel::M));
}

#[test]
fn validate_length_checks_mode_maximum() {
    let mut data = data_with(&"x".repeat(2954), ErrorCorrectionLevel::L);
    assert!(matches!(data.validate_length(), Err(QRError::InvalidLength(_))));
    let mut data = data_with(&"x".repeat(2953), ErrorCorrectionLevel::L);
    assert!(data.validate_length().is_ok());
    let mut input = QRInput::new();
    input.set_content(&"1".repeat(7090)).unwrap();
    assert!(matches!(input.validate_length(), Err(QRError::InvalidLength(_))));
    input.set_content(&"1".repeat(7089)).unwrap();
    assert!(input.validate_length().is_ok());
}

#[test]
fn indicators_of_input() {
    let mut input = QRInput::new();
    input.set_content("AC-42").unwrap();
    assert_eq!(input.get_mode_indicator(), 0b0010);
    assert_eq!(input.get_indicator(Some(1)), (0b0010, 5));
    assert_eq!(input.calculate_character_count_indicator(Some(1)), 5);
    input.set_content("日本").unwrap();
    assert_eq!(input.get_indicator(Some(1)), (0b0100, 6));
    assert_eq!(InputMode::Numeric.get_indicator(), 0b0001);
    assert_eq!(InputMode::Byte.get_indicator(), 0b0100);
}

#[test]
fn binary_strings_are_padded_to_width() {
    assert_eq!(to_binary(45, 7), "0101101");
    assert_eq!(to_binary(462, 11), "00111001110");
    assert_eq!(to_binary(0, 4), "0000");
    assert_eq!(to_binary(5, 0), "");
    assert_eq!(zero_bits(3), "000");
}

#[test]
fn capacity_table_entries() {
    let first = VersionInfo::for_version(1);
    assert_eq!(first.size, 21);
    assert_eq!(first.capacity_by_ec[1].numeric, 34);
    assert_eq!(first.capacity_by_ec[3].byte, 7);
    let last = VersionInfo::for_version(40);
    assert_eq!(last.size, 177);
    assert_eq!(last.capacity_by_ec[0].numeric, 7089);
    assert_eq!(last.capacity_by_ec[0].alphanumeric, 4296);
    assert_eq!(last.capacity_by_ec[0].byte, 2953);
    let entry = CapacityInfo::for_version(10, ErrorCorrectionLevel::Q);
    assert_eq!(entry.for_mode(InputMode::Alphanumeric), 221);
    assert_eq!(data_codeword_count(40, ErrorCorrectionLevel::H), 1276);
    assert_eq!(ErrorCorrectionLevel::Q.index(), 2);
}

#[test]
fn error_messages_name_their_kind() {
    let mut data = QRData::new();
    let err = data.set_content("").unwrap_err();
    assert_eq!(err.message(), "Invalid input: Input text cannot be empty");
    let mut data = QRData::new();
    assert_eq!(data.get_final_data().unwrap_err().message(), "Invalid version: Version not determined");
}

#[test]
fn bit_strings_are_grouped_for_display() {
    assert_eq!(format_bit_string("0001111011", 4), "0001 1110 11");
    assert_eq!(format_bit_string("00000000", 4), "0000 0000");
    assert_eq!(format_bit_string("0101", 8), "0101");
    assert_eq!(format_bit_string("", 4), "");
    assert_eq!(format_bit_string("日本語", 2), "日本 語");
}
