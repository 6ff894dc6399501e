use crate::encoder::ErrorCorrectionLevel;
use crate::input::InputMode;
use vstd::prelude::*;

verus! {

/// Capacities of one version at one error-correction level: the most characters that fit in
/// each mode (bytes, in byte mode).
#[derive(Debug, Clone, Copy)]
pub struct CapacityInfo {
    pub numeric: usize,
    pub alphanumeric: usize,
    pub byte: usize,
}

/// One symbol version: its side in modules and its capacities at levels L, M, Q and H.
#[derive(Debug, Clone, Copy)]
pub struct VersionInfo {
    pub size: u32,
    pub capacity_by_ec: [CapacityInfo; 4],
}

/// Numeric-mode character capacity, one row per version (1 to 40), one column per level (L, M, Q, H).
pub const NUMERIC_CAPACITY: [[u16; 4]; 40] = [
    [41, 34, 27, 17],
    [77, 63, 48, 34],
    [127, 101, 77, 58],
    [187, 149, 111, 82],
    [255, 202, 144, 106],
    [322, 255, 178, 139],
    [370, 293, 207, 154],
    [461, 365, 259, 202],
    [552, 432, 312, 235],
    [652, 513, 364, 288],
    [772, 604, 427, 331],
    [883, 691, 489, 374],
    [1022, 796, 580, 427],
    [1101, 871, 621, 468],
    [1250, 991, 703, 530],
    [1408, 1082, 775, 602],
    [1548, 1212, 876, 674],
    [1725, 1346, 948, 746],
    [1903, 1500, 1063, 813],
    [2061, 1600, 1159, 919],
    [2232, 1708, 1224, 969],
    [2409, 1872, 1358, 1056],
    [2620, 2059, 1468, 1108],
    [2812, 2188, 1588, 1228],
    [3057, 2395, 1718, 1286],
    [3283, 2544, 1804, 1425],
    [3517, 2701, 1933, 1501],
    [3669, 2857, 2085, 1581],
    [3909, 3035, 2181, 1677],
    [4158, 3289, 2358, 1782],
    [4417, 3486, 2473, 1897],
    [4686, 3693, 2670, 2022],
    [4965, 3909, 2805, 2157],
    [5253, 4134, 2949, 2301],
    [5529, 4343, 3081, 2361],
    [5836, 4588, 3244, 2524],
    [6153, 4775, 3417, 2625],
    [6479, 5039, 3599, 2735],
    [6743, 5313, 3791, 2927],
    [7089, 5596, 3993, 3057],
];

/// Alphanumeric-mode character capacity, laid out as `NUMERIC_CAPACITY`.
pub const ALPHANUMERIC_CAPACITY: [[u16; 4]; 40] = [
    [25, 20, 16, 10],
    [47, 38, 29, 20],
    [77, 61, 47, 35],
    [114, 90, 67, 50],
    [154, 122, 87, 64],
    [195, 154, 108, 84],
    [224, 178, 125, 93],
    [279, 221, 157, 122],
    [335, 262, 189, 143],
    [395, 311, 221, 174],
    [468, 366, 259, 200],
    [535, 419, 296, 227],
    [619, 483, 352, 259],
    [667, 528, 376, 283],
    [758, 600, 426, 321],
    [854, 656, 470, 365],
    [938, 734, 531, 408],
    [1046, 816, 574, 452],
    [1153, 909, 644, 493],
    [1249, 970, 702, 557],
    [1352, 1035, 742, 587],
    [1460, 1134, 823, 640],
    [1588, 1248, 890, 672],
    [1704, 1326, 963, 744],
    [1853, 1451, 1041, 779],
    [1990, 1542, 1094, 864],
    [2132, 1637, 1172, 910],
    [2223, 1732, 1263, 958],
    [2369, 1839, 1322, 1016],
    [2520, 1994, 1429, 1080],
    [2677, 2113, 1499, 1150],
    [2840, 2238, 1618, 1226],
    [3009, 2369, 1700, 1307],
    [3183, 2506, 1787, 1394],
    [3351, 2632, 1867, 1431],
    [3537, 2780, 1966, 1530],
    [3729, 2894, 2071, 1591],
    [3927, 3054, 2181, 1658],
    [4087, 3220, 2298, 1774],
    [4296, 3391, 2420, 1852],
];

/// Byte-mode capacity in bytes, laid out as `NUMERIC_CAPACITY`.
pub const BYTE_CAPACITY: [[u16; 4]; 40] = [
    [17, 14, 11, 7],
    [32, 26, 20, 14],
    [53, 42, 32, 24],
    [78, 62, 46, 34],
    [106, 84, 60, 44],
    [134, 106, 74, 58],
    [154, 122, 86, 64],
    [192, 152, 108, 84],
    [230, 180, 130, 98],
    [271, 213, 151, 119],
    [321, 251, 177, 137],
    [367, 287, 203, 155],
    [425, 331, 241, 177],
    [458, 362, 258, 194],
    [520, 412, 292, 220],
    [586, 450, 322, 250],
    [644, 504, 364, 280],
    [718, 560, 394, 310],
    [792, 624, 442, 338],
    [858, 666, 482, 382],
    [929, 711, 509, 403],
    [1003, 779, 565, 439],
    [1091, 857, 611, 461],
    [1171, 911, 661, 511],
    [1273, 997, 715, 535],
    [1367, 1059, 751, 593],
    [1465, 1125, 805, 625],
    [1528, 1190, 868, 658],
    [1628, 1264, 908, 698],
    [1732, 1370, 982, 742],
    [1840, 1452, 1030, 790],
    [1952, 1538, 1112, 842],
    [2068, 1628, 1168, 898],
    [2188, 1722, 1228, 958],
    [2303, 1809, 1283, 983],
    [2431, 1911, 1351, 1051],
    [2563, 1989, 1423, 1093],
    [2699, 2099, 1499, 1139],
    [2809, 2213, 1579, 1219],
    [2953, 2331, 1663, 1273],
];

/// Number of 8-bit data codewords, laid out as `NUMERIC_CAPACITY`.
pub const DATA_CODEWORDS: [[u16; 4]; 40] = [
    [19, 16, 13, 9],
    [34, 28, 22, 16],
    [55, 44, 34, 26],
    [80, 64, 48, 36],
    [108, 86, 62, 46],
    [136, 108, 76, 60],
    [156, 124, 88, 66],
    [194, 154, 110, 86],
    [232, 182, 132, 100],
    [274, 216, 154, 122],
    [324, 254, 180, 140],
    [370, 290, 206, 158],
    [428, 334, 244, 180],
    [461, 365, 261, 197],
    [523, 415, 295, 223],
    [589, 453, 325, 253],
    [647, 507, 367, 283],
    [721, 563, 397, 313],
    [795, 627, 445, 341],
    [861, 669, 485, 385],
    [932, 714, 512, 406],
    [1006, 782, 568, 442],
    [1094, 860, 614, 464],
    [1174, 914, 664, 514],
    [1276, 1000, 718, 538],
    [1370, 1062, 754, 596],
    [1468, 1128, 808, 628],
    [1531, 1193, 871, 661],
    [1631, 1267, 911, 701],
    [1735, 1373, 985, 745],
    [1843, 1455, 1033, 793],
    [1955, 1541, 1115, 845],
    [2071, 1631, 1171, 901],
    [2191, 1725, 1231, 961],
    [2306, 1812, 1286, 986],
    [2434, 1914, 1354, 1054],
    [2566, 1992, 1426, 1096],
    [2702, 2102, 1502, 1142],
    [2812, 2216, 1582, 1222],
    [2956, 2334, 1666, 1276],
];

/// Position of `level` in the order L, M, Q, H.
pub open spec fn level_index(level: ErrorCorrectionLevel) -> int {
    match level {
        ErrorCorrectionLevel::L => 0,
        ErrorCorrectionLevel::M => 1,
        ErrorCorrectionLevel::Q => 2,
        ErrorCorrectionLevel::H => 3,
    }
}

/// The most characters of `mode` that `version` holds at `level` (bytes, in byte mode).
pub open spec fn capacity(version: int, level: ErrorCorrectionLevel, mode: InputMode) -> int
    recommends
        1 <= version <= 40,
{
    let row = version - 1;
    let col = level_index(level);
    match mode {
        InputMode::Numeric => NUMERIC_CAPACITY[row][col] as int,
        InputMode::Alphanumeric => ALPHANUMERIC_CAPACITY[row][col] as int,
        InputMode::Byte => BYTE_CAPACITY[row][col] as int,
    }
}

/// Number of 8-bit data codewords of `version` at `level`.
pub open spec fn data_codewords(version: int, level: ErrorCorrectionLevel) -> int
    recommends
        1 <= version <= 40,
{
    DATA_CODEWORDS[version - 1][level_index(level)] as int
}

impl CapacityInfo {
    /// The capacity of `mode`.
    pub open spec fn spec_for_mode(self, mode: InputMode) -> int {
        match mode {
            InputMode::Numeric => self.numeric as int,
            InputMode::Alphanumeric => self.alphanumeric as int,
            InputMode::Byte => self.byte as int,
        }
    }

    /// The capacities of `version` at `level`.
    pub fn for_version(version: u8, level: ErrorCorrectionLevel) -> (r: CapacityInfo)
        requires
            1 <= version <= 40,
        ensures
            forall|mode: InputMode| #[trigger]
                r.spec_for_mode(mode) == capacity(version as int, level, mode),
    {
        let row = (version - 1) as usize;
        let col = level.index();
        CapacityInfo {
            numeric: NUMERIC_CAPACITY[row][col] as usize,
            alphanumeric: ALPHANUMERIC_CAPACITY[row][col] as usize,
            byte: BYTE_CAPACITY[row][col] as usize,
        }
    }

    /// The capacity of `mode`.
    pub fn for_mode(&self, mode: InputMode) -> (r: usize)
        ensures
            r == self.spec_for_mode(mode),
    {
        match mode {
            InputMode::Numeric => self.numeric,
            InputMode::Alphanumeric => self.alphanumeric,
            InputMode::Byte => self.byte,
        }
    }
}

impl VersionInfo {
    /// The entry of `version`: a side of `17 + 4 * version` modules and its capacities.
    pub fn for_version(version: u8) -> (r: VersionInfo)
        requires
            1 <= version <= 40,
        ensures
            r.size == 17 + 4 * version,
            forall|level: ErrorCorrectionLevel, mode: InputMode| #[trigger]
                r.capacity_by_ec[level_index(level)].spec_for_mode(mode) == capacity(
                    version as int,
                    level,
                    mode,
                ),
    {
        let r = VersionInfo {
            size: 17 + 4 * version as u32,
            capacity_by_ec: [
                CapacityInfo::for_version(version, ErrorCorrectionLevel::L),
                CapacityInfo::for_version(version, ErrorCorrectionLevel::M),
                CapacityInfo::for_version(version, ErrorCorrectionLevel::Q),
                CapacityInfo::for_version(version, ErrorCorrectionLevel::H),
            ],
        };
        assert forall|level: ErrorCorrectionLevel, mode: InputMode|
            #[trigger] r.capacity_by_ec[level_index(level)].spec_for_mode(mode) == capacity(
                version as int,
                level,
                mode,
            ) by {
            match level {
                ErrorCorrectionLevel::L => {},
                ErrorCorrectionLevel::M => {},
                ErrorCorrectionLevel::Q => {},
                ErrorCorrectionLevel::H => {},
            }
        }
        r
    }
}

/// Number of 8-bit data codewords of `version` at `level`.
pub fn data_codeword_count(version: u8, level: ErrorCorrectionLevel) -> (r: u16)
    requires
        1 <= version <= 40,
    ensures
        r == data_codewords(version as int, level),
{
    DATA_CODEWORDS[(version - 1) as usize][level.index()]
}

/// A stronger level holds no more than a weaker one, in every version and mode.
pub proof fn lemma_capacity_decreases_with_level(
    version: int,
    weaker: ErrorCorrectionLevel,
    stronger: ErrorCorrectionLevel,
    mode: InputMode,
)
    requires
        1 <= version <= 40,
        level_index(weaker) <= level_index(stronger),
    ensures
        capacity(version, stronger, mode) <= capacity(version, weaker, mode),
{
}

} // verus!
