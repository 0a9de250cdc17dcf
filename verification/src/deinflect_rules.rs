//! The deinflection rule table of the 10ten Japanese Reader: for each
//! rule, the ending it replaces, its replacement, the word types it applies
//! to and yields, and the reasons it records.
use vstd::prelude::*;

use crate::deinflect_model::{rule_ok, RuleModel};
use crate::deinflector::{rule_model, DeinflectionRule, Reason};
use crate::text::string_from_chars;

verus! {

/// Number of rules in the table.
pub open spec fn rule_table_len() -> nat {
    241
}

/// Rule `k` of the table, in the order the table lists them.
pub open spec fn rule_at(k: int) -> RuleModel {
    if 0 <= k < rule_table_len() {
        rule_entry(k as u8)
    } else {
        RuleModel { from: seq![], to: seq![], from_type: 0, to_type: 0, reasons: seq![] }
    }
}

pub open spec fn rule_entry(k: u8) -> RuleModel {
    if k < 16 {
        rule_block_0(k)
    } else if k < 32 {
        rule_block_16(k)
    } else if k < 48 {
        rule_block_32(k)
    } else if k < 64 {
        rule_block_48(k)
    } else if k < 80 {
        rule_block_64(k)
    } else if k < 96 {
        rule_block_80(k)
    } else if k < 112 {
        rule_block_96(k)
    } else if k < 128 {
        rule_block_112(k)
    } else if k < 144 {
        rule_block_128(k)
    } else if k < 160 {
        rule_block_144(k)
    } else if k < 176 {
        rule_block_160(k)
    } else if k < 192 {
        rule_block_176(k)
    } else if k < 208 {
        rule_block_192(k)
    } else if k < 224 {
        rule_block_208(k)
    } else if k < 240 {
        rule_block_224(k)
    } else if k < 256 {
        rule_block_240(k)
    } else {
        RuleModel { from: seq![], to: seq![], from_type: 0, to_type: 0, reasons: seq![] }
    }
}

pub open spec fn rule_block_0(k: u8) -> RuleModel {
    match k {
        0 => RuleModel { from: seq!['て', 'い', 'ら', 'っ', 'し', 'ゃ', 'い'], to: seq![], from_type: 128, to_type: 256, reasons: seq![Reason::Respectful, Reason::Continuous, Reason::Imperative] },
        1 => RuleModel { from: seq!['て', 'い', 'ら', 'っ', 'し', 'ゃ', 'る'], to: seq![], from_type: 2, to_type: 256, reasons: seq![Reason::Respectful, Reason::Continuous] },
        2 => RuleModel { from: seq!['で', 'い', 'ら', 'っ', 'し', 'ゃ', 'い'], to: seq![], from_type: 128, to_type: 512, reasons: seq![Reason::Respectful, Reason::Continuous, Reason::Imperative] },
        3 => RuleModel { from: seq!['で', 'い', 'ら', 'っ', 'し', 'ゃ', 'る'], to: seq![], from_type: 2, to_type: 512, reasons: seq![Reason::Respectful, Reason::Continuous] },
        4 => RuleModel { from: seq!['い', 'ら', 'っ', 'し', 'ゃ', 'い'], to: seq!['い', 'ら', 'っ', 'し', 'ゃ', 'る'], from_type: 1024, to_type: 2, reasons: seq![Reason::MasuStem] },
        5 => RuleModel { from: seq!['い', 'ら', 'っ', 'し', 'ゃ', 'い'], to: seq!['い', 'ら', 'っ', 'し', 'ゃ', 'る'], from_type: 128, to_type: 2, reasons: seq![Reason::Imperative] },
        6 => RuleModel { from: seq!['く', 'あ', 'り', 'ま', 'せ', 'ん'], to: seq!['い'], from_type: 128, to_type: 4, reasons: seq![Reason::PoliteNegative] },
        7 => RuleModel { from: seq!['ざ', 'る', 'を', 'え', 'な', 'い'], to: seq![], from_type: 4, to_type: 2048, reasons: seq![Reason::ZaruWoEnai] },
        8 => RuleModel { from: seq!['ざ', 'る', 'を', '得', 'な', 'い'], to: seq![], from_type: 4, to_type: 2048, reasons: seq![Reason::ZaruWoEnai] },
        9 => RuleModel { from: seq!['ま', 'せ', 'ん', 'で', 'し', 'た'], to: seq![], from_type: 128, to_type: 1024, reasons: seq![Reason::PolitePastNegative] },
        10 => RuleModel { from: seq!['て', 'ら', 'っ', 'し', 'ゃ', 'い'], to: seq![], from_type: 128, to_type: 256, reasons: seq![Reason::Respectful, Reason::Continuous, Reason::Imperative] },
        11 => RuleModel { from: seq!['て', 'ら', 'っ', 'し', 'ゃ', 'い'], to: seq!['て', 'ら', 'っ', 'し', 'ゃ', 'る'], from_type: 1024, to_type: 2, reasons: seq![Reason::MasuStem] },
        12 => RuleModel { from: seq!['て', 'ら', 'っ', 'し', 'ゃ', 'る'], to: seq![], from_type: 2, to_type: 256, reasons: seq![Reason::Respectful, Reason::Continuous] },
        13 => RuleModel { from: seq!['で', 'ら', 'っ', 'し', 'ゃ', 'い'], to: seq![], from_type: 128, to_type: 512, reasons: seq![Reason::Respectful, Reason::Continuous, Reason::Imperative] },
        14 => RuleModel { from: seq!['で', 'ら', 'っ', 'し', 'ゃ', 'い'], to: seq!['で', 'ら', 'っ', 'し', 'ゃ', 'る'], from_type: 1024, to_type: 2, reasons: seq![Reason::MasuStem] },
        15 => RuleModel { from: seq!['で', 'ら', 'っ', 'し', 'ゃ', 'る'], to: seq![], from_type: 2, to_type: 512, reasons: seq![Reason::Respectful, Reason::Continuous] },
        _ => RuleModel { from: seq![], to: seq![], from_type: 0, to_type: 0, reasons: seq![] },
    }
}

pub open spec fn rule_block_16(k: u8) -> RuleModel {
    match k {
        16 => RuleModel { from: seq!['お', 'っ', 'し', 'ゃ', 'い'], to: seq!['お', 'っ', 'し', 'ゃ', 'る'], from_type: 1024, to_type: 2, reasons: seq![Reason::MasuStem] },
        17 => RuleModel { from: seq!['お', 'っ', 'し', 'ゃ', 'い'], to: seq!['お', 'っ', 'し', 'ゃ', 'る'], from_type: 128, to_type: 2, reasons: seq![Reason::Imperative] },
        18 => RuleModel { from: seq!['ざ', 'る', 'え', 'な', 'い'], to: seq![], from_type: 4, to_type: 2048, reasons: seq![Reason::ZaruWoEnai] },
        19 => RuleModel { from: seq!['ざ', 'る', '得', 'な', 'い'], to: seq![], from_type: 4, to_type: 2048, reasons: seq![Reason::ZaruWoEnai] },
        20 => RuleModel { from: seq!['ざ', 'る', 'を', 'え', 'ぬ'], to: seq![], from_type: 4, to_type: 2048, reasons: seq![Reason::ZaruWoEnai] },
        21 => RuleModel { from: seq!['ざ', 'る', 'を', '得', 'ぬ'], to: seq![], from_type: 4, to_type: 2048, reasons: seq![Reason::ZaruWoEnai] },
        22 => RuleModel { from: seq!['ざ', 'る', 'え', 'ぬ'], to: seq![], from_type: 4, to_type: 2048, reasons: seq![Reason::ZaruWoEnai] },
        23 => RuleModel { from: seq!['ざ', 'る', '得', 'ぬ'], to: seq![], from_type: 4, to_type: 2048, reasons: seq![Reason::ZaruWoEnai] },
        24 => RuleModel { from: seq!['か', 'っ', 'た', 'ら'], to: seq!['い'], from_type: 128, to_type: 4, reasons: seq![Reason::Tara] },
        25 => RuleModel { from: seq!['か', 'っ', 'た', 'り'], to: seq!['い'], from_type: 128, to_type: 4, reasons: seq![Reason::Tari] },
        26 => RuleModel { from: seq!['く', 'だ', 'さ', 'い'], to: seq!['く', 'だ', 'さ', 'る'], from_type: 1024, to_type: 2, reasons: seq![Reason::MasuStem] },
        27 => RuleModel { from: seq!['く', 'だ', 'さ', 'い'], to: seq!['く', 'だ', 'さ', 'る'], from_type: 128, to_type: 2, reasons: seq![Reason::Imperative] },
        28 => RuleModel { from: seq!['こ', 'さ', 'せ', 'る'], to: seq!['く', 'る'], from_type: 1, to_type: 8, reasons: seq![Reason::Causative] },
        29 => RuleModel { from: seq!['こ', 'ら', 'れ', 'る'], to: seq!['く', 'る'], from_type: 1, to_type: 8, reasons: seq![Reason::PotentialOrPassive] },
        30 => RuleModel { from: seq!['さ', 'な', 'い', 'で'], to: seq!['す', 'る'], from_type: 128, to_type: 32, reasons: seq![Reason::Irregular, Reason::NegativeTe] },
        31 => RuleModel { from: seq!['し', 'な', 'い', 'で'], to: seq!['す', 'る'], from_type: 128, to_type: 16, reasons: seq![Reason::NegativeTe] },
        _ => RuleModel { from: seq![], to: seq![], from_type: 0, to_type: 0, reasons: seq![] },
    }
}

pub open spec fn rule_block_32(k: u8) -> RuleModel {
    match k {
        32 => RuleModel { from: seq!['し', 'さ', 'せ', 'る'], to: seq!['す', 'る'], from_type: 1, to_type: 32, reasons: seq![Reason::Irregular, Reason::Causative] },
        33 => RuleModel { from: seq!['し', 'ら', 'れ', 'る'], to: seq!['す', 'る'], from_type: 1, to_type: 32, reasons: seq![Reason::Irregular, Reason::PotentialOrPassive] },
        34 => RuleModel { from: seq!['せ', 'さ', 'せ', 'る'], to: seq!['す', 'る'], from_type: 1, to_type: 32, reasons: seq![Reason::Irregular, Reason::Causative] },
        35 => RuleModel { from: seq!['せ', 'ら', 'れ', 'る'], to: seq!['す', 'る'], from_type: 1, to_type: 32, reasons: seq![Reason::Irregular, Reason::PotentialOrPassive] },
        36 => RuleModel { from: seq!['ぜ', 'さ', 'せ', 'る'], to: seq!['ず', 'る'], from_type: 1, to_type: 32, reasons: seq![Reason::Irregular, Reason::Causative] },
        37 => RuleModel { from: seq!['ぜ', 'ら', 'れ', 'る'], to: seq!['ず', 'る'], from_type: 1, to_type: 32, reasons: seq![Reason::Irregular, Reason::PotentialOrPassive] },
        38 => RuleModel { from: seq!['た', 'ゆ', 'た', 'う'], to: seq!['た', 'ゆ', 'た', 'う'], from_type: 256, to_type: 2, reasons: seq![] },
        39 => RuleModel { from: seq!['た', 'ゆ', 'と', 'う'], to: seq!['た', 'ゆ', 'と', 'う'], from_type: 256, to_type: 2, reasons: seq![] },
        40 => RuleModel { from: seq!['の', 'た', 'ま', 'う'], to: seq!['の', 'た', 'ま', 'う'], from_type: 256, to_type: 2, reasons: seq![] },
        41 => RuleModel { from: seq!['の', 'た', 'も', 'う'], to: seq!['の', 'た', 'も', 'う'], from_type: 256, to_type: 2, reasons: seq![] },
        42 => RuleModel { from: seq!['ま', 'し', 'た', 'ら'], to: seq![], from_type: 128, to_type: 1024, reasons: seq![Reason::Polite, Reason::Tara] },
        43 => RuleModel { from: seq!['ま', 'し', 'た', 'り'], to: seq![], from_type: 128, to_type: 1024, reasons: seq![Reason::Polite, Reason::Tari] },
        44 => RuleModel { from: seq!['ま', 'し', 'ょ', 'う'], to: seq![], from_type: 128, to_type: 1024, reasons: seq![Reason::PoliteVolitional] },
        45 => RuleModel { from: seq!['い', 'た', 'す'], to: seq![], from_type: 2, to_type: 1024, reasons: seq![Reason::Humble] },
        46 => RuleModel { from: seq!['い', 'た', 'す'], to: seq![], from_type: 2, to_type: 64, reasons: seq![Reason::SuruNoun, Reason::Humble] },
        47 => RuleModel { from: seq!['か', 'っ', 'た'], to: seq!['い'], from_type: 128, to_type: 4, reasons: seq![Reason::Past] },
        _ => RuleModel { from: seq![], to: seq![], from_type: 0, to_type: 0, reasons: seq![] },
    }
}

pub open spec fn rule_block_48(k: u8) -> RuleModel {
    match k {
        48 => RuleModel { from: seq!['下', 'さ', 'い'], to: seq!['下', 'さ', 'る'], from_type: 1024, to_type: 2, reasons: seq![Reason::MasuStem] },
        49 => RuleModel { from: seq!['下', 'さ', 'い'], to: seq!['下', 'さ', 'る'], from_type: 128, to_type: 2, reasons: seq![Reason::Imperative] },
        50 => RuleModel { from: seq!['く', 'な', 'い'], to: seq!['い'], from_type: 4, to_type: 4, reasons: seq![Reason::Negative] },
        51 => RuleModel { from: seq!['け', 'れ', 'ば'], to: seq!['い'], from_type: 128, to_type: 4, reasons: seq![Reason::Ba] },
        52 => RuleModel { from: seq!['こ', 'よ', 'う'], to: seq!['く', 'る'], from_type: 128, to_type: 8, reasons: seq![Reason::Volitional] },
        53 => RuleModel { from: seq!['こ', 'れ', 'る'], to: seq!['く', 'る'], from_type: 1, to_type: 8, reasons: seq![Reason::Potential] },
        54 => RuleModel { from: seq!['来', 'れ', 'る'], to: seq!['来', 'る'], from_type: 1, to_type: 8, reasons: seq![Reason::Potential] },
        55 => RuleModel { from: seq!['來', 'れ', 'る'], to: seq!['來', 'る'], from_type: 1, to_type: 8, reasons: seq![Reason::Potential] },
        56 => RuleModel { from: seq!['ご', 'ざ', 'い'], to: seq!['ご', 'ざ', 'る'], from_type: 1024, to_type: 2, reasons: seq![Reason::MasuStem] },
        57 => RuleModel { from: seq!['ご', '座', 'い'], to: seq!['ご', '座', 'る'], from_type: 1024, to_type: 2, reasons: seq![Reason::MasuStem] },
        58 => RuleModel { from: seq!['御', '座', 'い'], to: seq!['御', '座', 'る'], from_type: 1024, to_type: 2, reasons: seq![Reason::MasuStem] },
        59 => RuleModel { from: seq!['さ', 'せ', 'る'], to: seq!['る'], from_type: 1, to_type: 9, reasons: seq![Reason::Causative] },
        60 => RuleModel { from: seq!['さ', 'せ', 'る'], to: seq!['す', 'る'], from_type: 1, to_type: 16, reasons: seq![Reason::Causative] },
        61 => RuleModel { from: seq!['さ', 'な', 'い'], to: seq!['す', 'る'], from_type: 4, to_type: 32, reasons: seq![Reason::Irregular, Reason::Negative] },
        62 => RuleModel { from: seq!['さ', 'れ', 'る'], to: seq![], from_type: 1, to_type: 2048, reasons: seq![Reason::CausativePassive] },
        63 => RuleModel { from: seq!['さ', 'れ', 'る'], to: seq!['す', 'る'], from_type: 1, to_type: 16, reasons: seq![Reason::Passive] },
        _ => RuleModel { from: seq![], to: seq![], from_type: 0, to_type: 0, reasons: seq![] },
    }
}

pub open spec fn rule_block_64(k: u8) -> RuleModel {
    match k {
        64 => RuleModel { from: seq!['し', 'う', 'る'], to: seq!['す', 'る'], from_type: 128, to_type: 16, reasons: seq![Reason::EruUru] },
        65 => RuleModel { from: seq!['し', 'え', 'る'], to: seq!['す', 'る'], from_type: 1, to_type: 16, reasons: seq![Reason::EruUru] },
        66 => RuleModel { from: seq!['し', 'な', 'い'], to: seq!['す', 'る'], from_type: 4, to_type: 16, reasons: seq![Reason::Negative] },
        67 => RuleModel { from: seq!['し', 'よ', 'う'], to: seq!['す', 'る'], from_type: 128, to_type: 16, reasons: seq![Reason::Volitional] },
        68 => RuleModel { from: seq!['じ', 'ゃ', 'う'], to: seq![], from_type: 2, to_type: 512, reasons: seq![Reason::Chau] },
        69 => RuleModel { from: seq!['す', 'ぎ', 'る'], to: seq!['い'], from_type: 1, to_type: 4, reasons: seq![Reason::Sugiru] },
        70 => RuleModel { from: seq!['す', 'ぎ', 'る'], to: seq![], from_type: 1, to_type: 1024, reasons: seq![Reason::Sugiru] },
        71 => RuleModel { from: seq!['過', 'ぎ', 'る'], to: seq!['い'], from_type: 1, to_type: 4, reasons: seq![Reason::Sugiru] },
        72 => RuleModel { from: seq!['過', 'ぎ', 'る'], to: seq![], from_type: 1, to_type: 1024, reasons: seq![Reason::Sugiru] },
        73 => RuleModel { from: seq!['ず', 'れ', 'ば'], to: seq!['ず', 'る'], from_type: 128, to_type: 32, reasons: seq![Reason::Irregular, Reason::Ba] },
        74 => RuleModel { from: seq!['た', 'ま', 'う'], to: seq!['た', 'ま', 'う'], from_type: 256, to_type: 2, reasons: seq![] },
        75 => RuleModel { from: seq!['た', 'も', 'う'], to: seq!['た', 'も', 'う'], from_type: 256, to_type: 2, reasons: seq![] },
        76 => RuleModel { from: seq!['揺', '蕩', 'う'], to: seq!['揺', '蕩', 'う'], from_type: 256, to_type: 2, reasons: seq![] },
        77 => RuleModel { from: seq!['ち', 'ゃ', 'う'], to: seq![], from_type: 2, to_type: 256, reasons: seq![Reason::Chau] },
        78 => RuleModel { from: seq!['て', 'い', 'る'], to: seq![], from_type: 1, to_type: 256, reasons: seq![Reason::Continuous] },
        79 => RuleModel { from: seq!['て', 'お', 'る'], to: seq![], from_type: 2, to_type: 256, reasons: seq![Reason::HumbleOrKansaiDialect, Reason::Continuous] },
        _ => RuleModel { from: seq![], to: seq![], from_type: 0, to_type: 0, reasons: seq![] },
    }
}

pub open spec fn rule_block_80(k: u8) -> RuleModel {
    match k {
        80 => RuleModel { from: seq!['で', 'い', 'る'], to: seq![], from_type: 1, to_type: 512, reasons: seq![Reason::Continuous] },
        81 => RuleModel { from: seq!['で', 'お', 'る'], to: seq![], from_type: 2, to_type: 512, reasons: seq![Reason::HumbleOrKansaiDialect, Reason::Continuous] },
        82 => RuleModel { from: seq!['で', 'き', 'る'], to: seq!['す', 'る'], from_type: 1, to_type: 16, reasons: seq![Reason::Potential] },
        83 => RuleModel { from: seq!['な', 'い', 'で'], to: seq![], from_type: 128, to_type: 2048, reasons: seq![Reason::NegativeTe] },
        84 => RuleModel { from: seq!['な', 'さ', 'い'], to: seq![], from_type: 128, to_type: 1024, reasons: seq![Reason::Respectful, Reason::Imperative] },
        85 => RuleModel { from: seq!['な', 'さ', 'い'], to: seq!['な', 'さ', 'る'], from_type: 1024, to_type: 2, reasons: seq![Reason::MasuStem] },
        86 => RuleModel { from: seq!['な', 'さ', 'い'], to: seq!['な', 'さ', 'る'], from_type: 128, to_type: 2, reasons: seq![Reason::Imperative] },
        87 => RuleModel { from: seq!['な', 'さ', 'る'], to: seq![], from_type: 2, to_type: 1024, reasons: seq![Reason::Respectful] },
        88 => RuleModel { from: seq!['な', 'さ', 'る'], to: seq![], from_type: 2, to_type: 64, reasons: seq![Reason::SuruNoun, Reason::Respectful] },
        89 => RuleModel { from: seq!['に', 'な', 'る'], to: seq![], from_type: 2, to_type: 1024, reasons: seq![Reason::Respectful] },
        90 => RuleModel { from: seq!['に', 'な', 'る'], to: seq![], from_type: 2, to_type: 64, reasons: seq![Reason::SuruNoun, Reason::Respectful] },
        91 => RuleModel { from: seq!['ま', 'し', 'た'], to: seq![], from_type: 128, to_type: 1024, reasons: seq![Reason::PolitePast] },
        92 => RuleModel { from: seq!['ま', 'し', 'て'], to: seq![], from_type: 128, to_type: 1024, reasons: seq![Reason::Polite, Reason::Te] },
        93 => RuleModel { from: seq!['ま', 'せ', 'ん'], to: seq![], from_type: 128, to_type: 1024, reasons: seq![Reason::PoliteNegative] },
        94 => RuleModel { from: seq!['ら', 'れ', 'る'], to: seq!['る'], from_type: 1, to_type: 9, reasons: seq![Reason::PotentialOrPassive] },
        95 => RuleModel { from: seq!['致', 'す'], to: seq![], from_type: 2, to_type: 1024, reasons: seq![Reason::Humble] },
        _ => RuleModel { from: seq![], to: seq![], from_type: 0, to_type: 0, reasons: seq![] },
    }
}

pub open spec fn rule_block_96(k: u8) -> RuleModel {
    match k {
        96 => RuleModel { from: seq!['致', 'す'], to: seq![], from_type: 2, to_type: 64, reasons: seq![Reason::SuruNoun, Reason::Humble] },
        97 => RuleModel { from: seq!['え', 'ば'], to: seq!['う'], from_type: 128, to_type: 2, reasons: seq![Reason::Ba] },
        98 => RuleModel { from: seq!['え', 'る'], to: seq!['う'], from_type: 1, to_type: 2, reasons: seq![Reason::Potential] },
        99 => RuleModel { from: seq!['得', 'る'], to: seq![], from_type: 1, to_type: 1024, reasons: seq![Reason::EruUru] },
        100 => RuleModel { from: seq!['お', 'う'], to: seq!['う'], from_type: 128, to_type: 2, reasons: seq![Reason::Volitional] },
        101 => RuleModel { from: seq!['仰', 'い'], to: seq!['仰', 'る'], from_type: 1024, to_type: 2, reasons: seq![Reason::MasuStem] },
        102 => RuleModel { from: seq!['仰', 'い'], to: seq!['仰', 'る'], from_type: 128, to_type: 2, reasons: seq![Reason::Imperative] },
        103 => RuleModel { from: seq!['く', 'て'], to: seq!['い'], from_type: 128, to_type: 4, reasons: seq![Reason::Te] },
        104 => RuleModel { from: seq!['け', 'ば'], to: seq!['く'], from_type: 128, to_type: 2, reasons: seq![Reason::Ba] },
        105 => RuleModel { from: seq!['げ', 'ば'], to: seq!['ぐ'], from_type: 128, to_type: 2, reasons: seq![Reason::Ba] },
        106 => RuleModel { from: seq!['け', 'る'], to: seq!['く'], from_type: 1, to_type: 2, reasons: seq![Reason::Potential] },
        107 => RuleModel { from: seq!['げ', 'る'], to: seq!['ぐ'], from_type: 1, to_type: 2, reasons: seq![Reason::Potential] },
        108 => RuleModel { from: seq!['こ', 'い'], to: seq!['く', 'る'], from_type: 128, to_type: 8, reasons: seq![Reason::Imperative] },
        109 => RuleModel { from: seq!['こ', 'う'], to: seq!['く'], from_type: 128, to_type: 2, reasons: seq![Reason::Volitional] },
        110 => RuleModel { from: seq!['ご', 'う'], to: seq!['ぐ'], from_type: 128, to_type: 2, reasons: seq![Reason::Volitional] },
        111 => RuleModel { from: seq!['し', 'ろ'], to: seq!['す', 'る'], from_type: 128, to_type: 16, reasons: seq![Reason::Imperative] },
        _ => RuleModel { from: seq![], to: seq![], from_type: 0, to_type: 0, reasons: seq![] },
    }
}

pub open spec fn rule_block_112(k: u8) -> RuleModel {
    match k {
        112 => RuleModel { from: seq!['さ', 'ず'], to: seq!['す', 'る'], from_type: 128, to_type: 32, reasons: seq![Reason::Irregular, Reason::Zu] },
        113 => RuleModel { from: seq!['す', 'ぎ'], to: seq!['い'], from_type: 128, to_type: 4, reasons: seq![Reason::Sugiru] },
        114 => RuleModel { from: seq!['す', 'ぎ'], to: seq![], from_type: 128, to_type: 1024, reasons: seq![Reason::Sugiru] },
        115 => RuleModel { from: seq!['過', 'ぎ'], to: seq!['い'], from_type: 128, to_type: 4, reasons: seq![Reason::Sugiru] },
        116 => RuleModel { from: seq!['過', 'ぎ'], to: seq![], from_type: 128, to_type: 1024, reasons: seq![Reason::Sugiru] },
        117 => RuleModel { from: seq!['す', 'る'], to: seq![], from_type: 16, to_type: 64, reasons: seq![Reason::SuruNoun] },
        118 => RuleModel { from: seq!['せ', 'ず'], to: seq!['す', 'る'], from_type: 128, to_type: 16, reasons: seq![Reason::Zu] },
        119 => RuleModel { from: seq!['せ', 'ぬ'], to: seq!['す', 'る'], from_type: 128, to_type: 16, reasons: seq![Reason::Negative] },
        120 => RuleModel { from: seq!['せ', 'ん'], to: seq!['す', 'る'], from_type: 128, to_type: 16, reasons: seq![Reason::Negative] },
        121 => RuleModel { from: seq!['せ', 'ば'], to: seq!['す'], from_type: 128, to_type: 2, reasons: seq![Reason::Ba] },
        122 => RuleModel { from: seq!['せ', 'ば'], to: seq!['す', 'る'], from_type: 128, to_type: 32, reasons: seq![Reason::Irregular, Reason::Ba] },
        123 => RuleModel { from: seq!['せ', 'よ'], to: seq!['す', 'る'], from_type: 128, to_type: 16, reasons: seq![Reason::Imperative] },
        124 => RuleModel { from: seq!['せ', 'る'], to: seq!['す'], from_type: 1, to_type: 2, reasons: seq![Reason::Potential] },
        125 => RuleModel { from: seq!['せ', 'る'], to: seq![], from_type: 1, to_type: 2048, reasons: seq![Reason::Causative] },
        126 => RuleModel { from: seq!['ぜ', 'ず'], to: seq!['ず', 'る'], from_type: 128, to_type: 32, reasons: seq![Reason::Irregular, Reason::Zu] },
        127 => RuleModel { from: seq!['ぜ', 'ぬ'], to: seq!['ず', 'る'], from_type: 128, to_type: 32, reasons: seq![Reason::Irregular, Reason::Negative] },
        _ => RuleModel { from: seq![], to: seq![], from_type: 0, to_type: 0, reasons: seq![] },
    }
}

pub open spec fn rule_block_128(k: u8) -> RuleModel {
    match k {
        128 => RuleModel { from: seq!['ぜ', 'よ'], to: seq!['ず', 'る'], from_type: 128, to_type: 32, reasons: seq![Reason::Irregular, Reason::Imperative] },
        129 => RuleModel { from: seq!['そ', 'う'], to: seq![], from_type: 128, to_type: 1024, reasons: seq![Reason::Sou] },
        130 => RuleModel { from: seq!['そ', 'う'], to: seq!['い'], from_type: 128, to_type: 4, reasons: seq![Reason::Sou] },
        131 => RuleModel { from: seq!['そ', 'う'], to: seq!['す'], from_type: 128, to_type: 2, reasons: seq![Reason::Volitional] },
        132 => RuleModel { from: seq!['そ', 'う'], to: seq!['す', 'る'], from_type: 128, to_type: 32, reasons: seq![Reason::Irregular, Reason::Volitional] },
        133 => RuleModel { from: seq!['た', 'い'], to: seq![], from_type: 4, to_type: 1024, reasons: seq![Reason::Tai] },
        134 => RuleModel { from: seq!['た', 'ら'], to: seq![], from_type: 128, to_type: 256, reasons: seq![Reason::Tara] },
        135 => RuleModel { from: seq!['だ', 'ら'], to: seq![], from_type: 128, to_type: 512, reasons: seq![Reason::Tara] },
        136 => RuleModel { from: seq!['た', 'り'], to: seq![], from_type: 128, to_type: 256, reasons: seq![Reason::Tari] },
        137 => RuleModel { from: seq!['だ', 'り'], to: seq![], from_type: 128, to_type: 512, reasons: seq![Reason::Tari] },
        138 => RuleModel { from: seq!['て', 'ば'], to: seq!['つ'], from_type: 128, to_type: 2, reasons: seq![Reason::Ba] },
        139 => RuleModel { from: seq!['て', 'る'], to: seq!['つ'], from_type: 1, to_type: 2, reasons: seq![Reason::Potential] },
        140 => RuleModel { from: seq!['て', 'る'], to: seq![], from_type: 1, to_type: 256, reasons: seq![Reason::Continuous] },
        141 => RuleModel { from: seq!['で', 'る'], to: seq![], from_type: 1, to_type: 512, reasons: seq![Reason::Continuous] },
        142 => RuleModel { from: seq!['と', 'う'], to: seq!['つ'], from_type: 128, to_type: 2, reasons: seq![Reason::Volitional] },
        143 => RuleModel { from: seq!['と', 'く'], to: seq![], from_type: 2, to_type: 256, reasons: seq![Reason::Toku] },
        _ => RuleModel { from: seq![], to: seq![], from_type: 0, to_type: 0, reasons: seq![] },
    }
}

pub open spec fn rule_block_144(k: u8) -> RuleModel {
    match k {
        144 => RuleModel { from: seq!['と', 'る'], to: seq![], from_type: 2, to_type: 256, reasons: seq![Reason::HumbleOrKansaiDialect, Reason::Continuous] },
        145 => RuleModel { from: seq!['ど', 'く'], to: seq![], from_type: 2, to_type: 512, reasons: seq![Reason::Toku] },
        146 => RuleModel { from: seq!['ど', 'る'], to: seq![], from_type: 2, to_type: 512, reasons: seq![Reason::HumbleOrKansaiDialect, Reason::Continuous] },
        147 => RuleModel { from: seq!['な', 'い'], to: seq![], from_type: 4, to_type: 2048, reasons: seq![Reason::Negative] },
        148 => RuleModel { from: seq!['ね', 'ば'], to: seq!['ぬ'], from_type: 128, to_type: 2, reasons: seq![Reason::Ba] },
        149 => RuleModel { from: seq!['ね', 'る'], to: seq!['ぬ'], from_type: 1, to_type: 2, reasons: seq![Reason::Potential] },
        150 => RuleModel { from: seq!['の', 'う'], to: seq!['ぬ'], from_type: 128, to_type: 2, reasons: seq![Reason::Volitional] },
        151 => RuleModel { from: seq!['べ', 'ば'], to: seq!['ぶ'], from_type: 128, to_type: 2, reasons: seq![Reason::Ba] },
        152 => RuleModel { from: seq!['べ', 'る'], to: seq!['ぶ'], from_type: 1, to_type: 2, reasons: seq![Reason::Potential] },
        153 => RuleModel { from: seq!['ぼ', 'う'], to: seq!['ぶ'], from_type: 128, to_type: 2, reasons: seq![Reason::Volitional] },
        154 => RuleModel { from: seq!['ま', 'す'], to: seq![], from_type: 128, to_type: 1024, reasons: seq![Reason::Polite] },
        155 => RuleModel { from: seq!['ま', 'せ'], to: seq![], from_type: 128, to_type: 1024, reasons: seq![Reason::Polite, Reason::Imperative] },
        156 => RuleModel { from: seq!['め', 'ば'], to: seq!['む'], from_type: 128, to_type: 2, reasons: seq![Reason::Ba] },
        157 => RuleModel { from: seq!['め', 'る'], to: seq!['む'], from_type: 1, to_type: 2, reasons: seq![Reason::Potential] },
        158 => RuleModel { from: seq!['も', 'う'], to: seq!['む'], from_type: 128, to_type: 2, reasons: seq![Reason::Volitional] },
        159 => RuleModel { from: seq!['よ', 'う'], to: seq!['る'], from_type: 128, to_type: 9, reasons: seq![Reason::Volitional] },
        _ => RuleModel { from: seq![], to: seq![], from_type: 0, to_type: 0, reasons: seq![] },
    }
}

pub open spec fn rule_block_160(k: u8) -> RuleModel {
    match k {
        160 => RuleModel { from: seq!['れ', 'ば'], to: seq!['る'], from_type: 128, to_type: 27, reasons: seq![Reason::Ba] },
        161 => RuleModel { from: seq!['れ', 'る'], to: seq!['る'], from_type: 1, to_type: 3, reasons: seq![Reason::Potential] },
        162 => RuleModel { from: seq!['れ', 'る'], to: seq![], from_type: 1, to_type: 2048, reasons: seq![Reason::Passive] },
        163 => RuleModel { from: seq!['ろ', 'う'], to: seq!['る'], from_type: 128, to_type: 2, reasons: seq![Reason::Volitional] },
        164 => RuleModel { from: seq!['い', 'っ'], to: seq!['い', 'く'], from_type: 256, to_type: 2, reasons: seq![] },
        165 => RuleModel { from: seq!['お', 'う'], to: seq!['お', 'う'], from_type: 256, to_type: 2, reasons: seq![] },
        166 => RuleModel { from: seq!['こ', 'う'], to: seq!['こ', 'う'], from_type: 256, to_type: 2, reasons: seq![] },
        167 => RuleModel { from: seq!['そ', 'う'], to: seq!['そ', 'う'], from_type: 256, to_type: 2, reasons: seq![] },
        168 => RuleModel { from: seq!['と', 'う'], to: seq!['と', 'う'], from_type: 256, to_type: 2, reasons: seq![] },
        169 => RuleModel { from: seq!['行', 'っ'], to: seq!['行', 'く'], from_type: 256, to_type: 2, reasons: seq![] },
        170 => RuleModel { from: seq!['逝', 'っ'], to: seq!['逝', 'く'], from_type: 256, to_type: 2, reasons: seq![] },
        171 => RuleModel { from: seq!['往', 'っ'], to: seq!['往', 'く'], from_type: 256, to_type: 2, reasons: seq![] },
        172 => RuleModel { from: seq!['請', 'う'], to: seq!['請', 'う'], from_type: 256, to_type: 2, reasons: seq![] },
        173 => RuleModel { from: seq!['乞', 'う'], to: seq!['乞', 'う'], from_type: 256, to_type: 2, reasons: seq![] },
        174 => RuleModel { from: seq!['恋', 'う'], to: seq!['恋', 'う'], from_type: 256, to_type: 2, reasons: seq![] },
        175 => RuleModel { from: seq!['問', 'う'], to: seq!['問', 'う'], from_type: 256, to_type: 2, reasons: seq![] },
        _ => RuleModel { from: seq![], to: seq![], from_type: 0, to_type: 0, reasons: seq![] },
    }
}

pub open spec fn rule_block_176(k: u8) -> RuleModel {
    match k {
        176 => RuleModel { from: seq!['負', 'う'], to: seq!['負', 'う'], from_type: 256, to_type: 2, reasons: seq![] },
        177 => RuleModel { from: seq!['沿', 'う'], to: seq!['沿', 'う'], from_type: 256, to_type: 2, reasons: seq![] },
        178 => RuleModel { from: seq!['添', 'う'], to: seq!['添', 'う'], from_type: 256, to_type: 2, reasons: seq![] },
        179 => RuleModel { from: seq!['副', 'う'], to: seq!['副', 'う'], from_type: 256, to_type: 2, reasons: seq![] },
        180 => RuleModel { from: seq!['厭', 'う'], to: seq!['厭', 'う'], from_type: 256, to_type: 2, reasons: seq![] },
        181 => RuleModel { from: seq!['給', 'う'], to: seq!['給', 'う'], from_type: 256, to_type: 2, reasons: seq![] },
        182 => RuleModel { from: seq!['賜', 'う'], to: seq!['賜', 'う'], from_type: 256, to_type: 2, reasons: seq![] },
        183 => RuleModel { from: seq!['宣', 'う'], to: seq!['宣', 'う'], from_type: 256, to_type: 2, reasons: seq![] },
        184 => RuleModel { from: seq!['曰', 'う'], to: seq!['曰', 'う'], from_type: 256, to_type: 2, reasons: seq![] },
        185 => RuleModel { from: seq!['い'], to: seq!['う'], from_type: 1024, to_type: 2, reasons: seq![Reason::MasuStem] },
        186 => RuleModel { from: seq!['い'], to: seq!['く'], from_type: 256, to_type: 2, reasons: seq![] },
        187 => RuleModel { from: seq!['い'], to: seq!['ぐ'], from_type: 512, to_type: 2, reasons: seq![] },
        188 => RuleModel { from: seq!['い'], to: seq!['る'], from_type: 128, to_type: 8, reasons: seq![Reason::Imperative] },
        189 => RuleModel { from: seq!['え'], to: seq!['う'], from_type: 128, to_type: 2, reasons: seq![Reason::Imperative] },
        190 => RuleModel { from: seq!['か'], to: seq!['く'], from_type: 2048, to_type: 2, reasons: seq![] },
        191 => RuleModel { from: seq!['が'], to: seq!['ぐ'], from_type: 2048, to_type: 2, reasons: seq![] },
        _ => RuleModel { from: seq![], to: seq![], from_type: 0, to_type: 0, reasons: seq![] },
    }
}

pub open spec fn rule_block_192(k: u8) -> RuleModel {
    match k {
        192 => RuleModel { from: seq!['き'], to: seq!['い'], from_type: 128, to_type: 4, reasons: seq![Reason::Ki] },
        193 => RuleModel { from: seq!['き'], to: seq!['く'], from_type: 1024, to_type: 2, reasons: seq![Reason::MasuStem] },
        194 => RuleModel { from: seq!['き'], to: seq!['く', 'る'], from_type: 256, to_type: 8, reasons: seq![] },
        195 => RuleModel { from: seq!['き'], to: seq!['く', 'る'], from_type: 1024, to_type: 8, reasons: seq![Reason::MasuStem] },
        196 => RuleModel { from: seq!['ぎ'], to: seq!['ぐ'], from_type: 1024, to_type: 2, reasons: seq![Reason::MasuStem] },
        197 => RuleModel { from: seq!['く'], to: seq!['い'], from_type: 128, to_type: 4, reasons: seq![Reason::Adv] },
        198 => RuleModel { from: seq!['け'], to: seq!['く'], from_type: 128, to_type: 2, reasons: seq![Reason::Imperative] },
        199 => RuleModel { from: seq!['げ'], to: seq!['ぐ'], from_type: 128, to_type: 2, reasons: seq![Reason::Imperative] },
        200 => RuleModel { from: seq!['こ'], to: seq!['く', 'る'], from_type: 2048, to_type: 8, reasons: seq![] },
        201 => RuleModel { from: seq!['さ'], to: seq!['い'], from_type: 128, to_type: 4, reasons: seq![Reason::Noun] },
        202 => RuleModel { from: seq!['さ'], to: seq!['す'], from_type: 2048, to_type: 2, reasons: seq![] },
        203 => RuleModel { from: seq!['し'], to: seq!['す'], from_type: 1024, to_type: 2, reasons: seq![Reason::MasuStem] },
        204 => RuleModel { from: seq!['し'], to: seq!['す', 'る'], from_type: 1024, to_type: 16, reasons: seq![Reason::MasuStem] },
        205 => RuleModel { from: seq!['し'], to: seq!['す'], from_type: 256, to_type: 2, reasons: seq![] },
        206 => RuleModel { from: seq!['し'], to: seq!['す', 'る'], from_type: 256, to_type: 16, reasons: seq![] },
        207 => RuleModel { from: seq!['ず'], to: seq![], from_type: 128, to_type: 2048, reasons: seq![Reason::Zu] },
        _ => RuleModel { from: seq![], to: seq![], from_type: 0, to_type: 0, reasons: seq![] },
    }
}

pub open spec fn rule_block_208(k: u8) -> RuleModel {
    match k {
        208 => RuleModel { from: seq!['せ'], to: seq!['す'], from_type: 128, to_type: 2, reasons: seq![Reason::Imperative] },
        209 => RuleModel { from: seq!['せ'], to: seq!['す', 'る'], from_type: 128, to_type: 32, reasons: seq![Reason::Irregular, Reason::Imperative] },
        210 => RuleModel { from: seq!['た'], to: seq!['つ'], from_type: 2048, to_type: 2, reasons: seq![] },
        211 => RuleModel { from: seq!['た'], to: seq![], from_type: 128, to_type: 256, reasons: seq![Reason::Past] },
        212 => RuleModel { from: seq!['だ'], to: seq![], from_type: 128, to_type: 512, reasons: seq![Reason::Past] },
        213 => RuleModel { from: seq!['ち'], to: seq!['つ'], from_type: 1024, to_type: 2, reasons: seq![Reason::MasuStem] },
        214 => RuleModel { from: seq!['っ'], to: seq!['う'], from_type: 256, to_type: 2, reasons: seq![] },
        215 => RuleModel { from: seq!['っ'], to: seq!['つ'], from_type: 256, to_type: 2, reasons: seq![] },
        216 => RuleModel { from: seq!['っ'], to: seq!['る'], from_type: 256, to_type: 2, reasons: seq![] },
        217 => RuleModel { from: seq!['て'], to: seq![], from_type: 128, to_type: 256, reasons: seq![Reason::Te] },
        218 => RuleModel { from: seq!['て'], to: seq!['つ'], from_type: 128, to_type: 2, reasons: seq![Reason::Imperative] },
        219 => RuleModel { from: seq!['で'], to: seq![], from_type: 128, to_type: 512, reasons: seq![Reason::Te] },
        220 => RuleModel { from: seq!['な'], to: seq!['ぬ'], from_type: 2048, to_type: 2, reasons: seq![] },
        221 => RuleModel { from: seq!['な'], to: seq![], from_type: 128, to_type: 27, reasons: seq![Reason::ImperativeNegative] },
        222 => RuleModel { from: seq!['に'], to: seq!['ぬ'], from_type: 1024, to_type: 2, reasons: seq![Reason::MasuStem] },
        223 => RuleModel { from: seq!['ぬ'], to: seq![], from_type: 128, to_type: 2048, reasons: seq![Reason::Negative] },
        _ => RuleModel { from: seq![], to: seq![], from_type: 0, to_type: 0, reasons: seq![] },
    }
}

pub open spec fn rule_block_224(k: u8) -> RuleModel {
    match k {
        224 => RuleModel { from: seq!['ね'], to: seq!['ぬ'], from_type: 128, to_type: 2, reasons: seq![Reason::Imperative] },
        225 => RuleModel { from: seq!['ば'], to: seq!['ぶ'], from_type: 2048, to_type: 2, reasons: seq![] },
        226 => RuleModel { from: seq!['び'], to: seq!['ぶ'], from_type: 1024, to_type: 2, reasons: seq![Reason::MasuStem] },
        227 => RuleModel { from: seq!['べ'], to: seq!['ぶ'], from_type: 128, to_type: 2, reasons: seq![Reason::Imperative] },
        228 => RuleModel { from: seq!['ま'], to: seq!['む'], from_type: 2048, to_type: 2, reasons: seq![] },
        229 => RuleModel { from: seq!['み'], to: seq!['む'], from_type: 1024, to_type: 2, reasons: seq![Reason::MasuStem] },
        230 => RuleModel { from: seq!['め'], to: seq!['む'], from_type: 128, to_type: 2, reasons: seq![Reason::Imperative] },
        231 => RuleModel { from: seq!['よ'], to: seq!['る'], from_type: 128, to_type: 1, reasons: seq![Reason::Imperative] },
        232 => RuleModel { from: seq!['ら'], to: seq!['る'], from_type: 2048, to_type: 2, reasons: seq![] },
        233 => RuleModel { from: seq!['り'], to: seq!['る'], from_type: 1024, to_type: 2, reasons: seq![Reason::MasuStem] },
        234 => RuleModel { from: seq!['れ'], to: seq!['る'], from_type: 128, to_type: 2, reasons: seq![Reason::Imperative] },
        235 => RuleModel { from: seq!['ろ'], to: seq!['る'], from_type: 128, to_type: 1, reasons: seq![Reason::Imperative] },
        236 => RuleModel { from: seq!['わ'], to: seq!['う'], from_type: 2048, to_type: 2, reasons: seq![] },
        237 => RuleModel { from: seq!['ん'], to: seq!['ぬ'], from_type: 512, to_type: 2, reasons: seq![] },
        238 => RuleModel { from: seq!['ん'], to: seq!['ぶ'], from_type: 512, to_type: 2, reasons: seq![] },
        239 => RuleModel { from: seq!['ん'], to: seq!['む'], from_type: 512, to_type: 2, reasons: seq![] },
        _ => RuleModel { from: seq![], to: seq![], from_type: 0, to_type: 0, reasons: seq![] },
    }
}

pub open spec fn rule_block_240(k: u8) -> RuleModel {
    match k {
        240 => RuleModel { from: seq!['ん'], to: seq![], from_type: 128, to_type: 2048, reasons: seq![Reason::Negative] },
        _ => RuleModel { from: seq![], to: seq![], from_type: 0, to_type: 0, reasons: seq![] },
    }
}

/// The rule table, in order.
pub open spec fn rule_table() -> Seq<RuleModel> {
    Seq::new(rule_table_len(), |k: int| rule_at(k))
}

/// Appends one rule built from characters.
fn add_rule(
    rules: &mut Vec<DeinflectionRule>,
    from: Vec<char>,
    to: Vec<char>,
    from_type: u32,
    to_type: u32,
    reasons: Vec<Reason>,
)
    ensures
        final(rules)@.len() == old(rules)@.len() + 1,
        forall|j: int| 0 <= j < old(rules)@.len() ==> #[trigger] final(rules)@[j] == old(rules)@[j],
        rule_model(final(rules)@[old(rules)@.len() as int]) == (RuleModel {
            from: from@,
            to: to@,
            from_type,
            to_type,
            reasons: reasons@,
        }),
{
    let rule = DeinflectionRule {
        from: string_from_chars(from.as_slice()),
        to: string_from_chars(to.as_slice()),
        from_type,
        to_type,
        reasons,
    };
    rules.push(rule);
}

fn add_rules_from_0(rules: &mut Vec<DeinflectionRule>)
    requires
        old(rules)@.len() == 0,
        forall|j: int| 0 <= j < 0 ==> rule_model(#[trigger] old(rules)@[j]) == rule_at(j) && rule_ok(rule_at(j)),
    ensures
        final(rules)@.len() == 8,
        forall|j: int| 0 <= j < 8 ==> rule_model(#[trigger] final(rules)@[j]) == rule_at(j) && rule_ok(rule_at(j)),
{
    let f = vec!['て', 'い', 'ら', 'っ', 'し', 'ゃ', 'い'];
    let t = vec![];
    let rs = vec![Reason::Respectful, Reason::Continuous, Reason::Imperative];
    proof {
        let e = rule_at(0);
        assert(f@ =~= e.from);
        assert(t@ =~= e.to);
        assert(rs@ =~= e.reasons);
        assert(rule_ok(e));
    }
    add_rule(rules, f, t, 128, 256, rs);
    assert(rule_model(rules@[0]) == rule_at(0));
    let f = vec!['て', 'い', 'ら', 'っ', 'し', 'ゃ', 'る'];
    let t = vec![];
    let rs = vec![Reason::Respectful, Reason::Continuous];
    proof {
        let e = rule_at(1);
        assert(f@ =~= e.from);
        assert(t@ =~= e.to);
        assert(rs@ =~= e.reasons);
        assert(rule_ok(e));
    }
    add_rule(rules, f, t, 2, 256, rs);
    assert(rule_model(rules@[1]) == rule_at(1));
    let f = vec!['で', 'い', 'ら', 'っ', 'し', 'ゃ', 'い'];
    let t = vec![];
    let rs = vec![Reason::Respectful, Reason::Continuous, Reason::Imperative];
    proof {
        let e = rule_at(2);
        assert(f@ =~= e.from);
        assert(t@ =~= e.to);
        assert(rs@ =~= e.reasons);
        assert(rule_ok(e));
    }
    add_rule(rules, f, t, 128, 512, rs);
    assert(rule_model(rules@[2]) == rule_at(2));
    let f = vec!['で', 'い', 'ら', 'っ', 'し', 'ゃ', 'る'];
    let t = vec![];
    let rs = vec![Reason::Respectful, Reason::Continuous];
    proof {
        let e = rule_at(3);
        assert(f@ =~= e.from);
        assert(t@ =~= e.to);
        assert(rs@ =~= e.reasons);
        assert(rule_ok(e));
    }
    add_rule(rules, f, t, 2, 512, rs);
    assert(rule_model(rules@[3]) == rule_at(3));
    let f = vec!['い', 'ら', 'っ', 'し', 'ゃ', 'い'];
    let t = vec!['い', 'ら', 'っ', 'し', 'ゃ', 'る'];
    let rs = vec![Reason::MasuStem];
    proof {
        let e = rule_at(4);
        assert(f@ =~= e.from);
        assert(t@ =~= e.to);
        assert(rs@ =~= e.reasons);
        assert(rule_ok(e));
    }
    add_rule(rules, f, t, 1024, 2, rs);
    assert(rule_model(rules@[4]) == rule_at(4));
    let f = vec!['い', 'ら', 'っ', 'し', 'ゃ', 'い'];
    let t = vec!['い', 'ら', 'っ', 'し', 'ゃ', 'る'];
    let rs = vec![Reason::Imperative];
    proof {
        let e = rule_at(5);
        assert(f@ =~= e.from);
        assert(t@ =~= e.to);
        assert(rs@ =~= e.reasons);
        assert(rule_ok(e));
    }
    add_rule(rules, f, t, 128, 2, rs);
    assert(rule_model(rules@[5]) == rule_at(5));
    let f = vec!['く', 'あ', 'り', 'ま', 'せ', 'ん'];
    let t = vec!['い'];
    let rs = vec![Reason::PoliteNegative];
    proof {
        let e = rule_at(6);
        assert(f@ =~= e.from);
        assert(t@ =~= e.to);
        assert(rs@ =~= e.reasons);
        assert(rule_ok(e));
    }
    add_rule(rules, f, t, 128, 4, rs);
    assert(rule_model(rules@[6]) == rule_at(6));
    let f = vec!['ざ', 'る', 'を', 'え', 'な', 'い'];
    let t = vec![];
    let rs = vec![Reason::ZaruWoEnai];
    proof {
        let e = rule_at(7);
        assert(f@ =~= e.from);
        assert(t@ =~= e.to);
        assert(rs@ =~= e.reasons);
        assert(rule_ok(e));
    }
    add_rule(rules, f, t, 4, 2048, rs);
    assert(rule_model(rules@[7]) == rule_at(7));
}

fn add_rules_from_8(rules: &mut Vec<DeinflectionRule>)
    requires
        old(rules)@.len() == 8,
        forall|j: int| 0 <= j < 8 ==> rule_model(#[trigger] old(rules)@[j]) == rule_at(j) && rule_ok(rule_at(j)),
    ensures
        final(rules)@.len() == 16,
        forall|j: int| 0 <= j < 16 ==> rule_model(#[trigger] final(rules)@[j]) == rule_at(j) && rule_ok(rule_at(j)),
{
    let f = vec!['ざ', 'る', 'を', '得', 'な', 'い'];
    let t = vec![];
    let rs = vec![Reason::ZaruWoEnai];
    proof {
        let e = rule_at(8);
        assert(f@ =~= e.from);
        assert(t@ =~= e.to);
        assert(rs@ =~= e.reasons);
        assert(rule_ok(e));
    }
    add_rule(rules, f, t, 4, 2048, rs);
    assert(rule_model(rules@[8]) == rule_at(8));
    let f = vec!['ま', 'せ', 'ん', 'で', 'し', 'た'];
    let t = vec![];
    let rs = vec![Reason::PolitePastNegative];
    proof {
        let e = rule_at(9);
        assert(f@ =~= e.from);
        assert(t@ =~= e.to);
        assert(rs@ =~= e.reasons);
        assert(rule_ok(e));
    }
    add_rule(rules, f, t, 128, 1024, rs);
    assert(rule_model(rules@[9]) == rule_at(9));
    let f = vec!['て', 'ら', 'っ', 'し', 'ゃ', 'い'];
    let t = vec![];
    let rs = vec![Reason::Respectful, Reason::Continuous, Reason::Imperative];
    proof {
        let e = rule_at(10);
        assert(f@ =~= e.from);
        assert(t@ =~= e.to);
        assert(rs@ =~= e.reasons);
        assert(rule_ok(e));
    }
    add_rule(rules, f, t, 128, 256, rs);
    assert(rule_model(rules@[10]) == rule_at(10));
    let f = vec!['て', 'ら', 'っ', 'し', 'ゃ', 'い'];
    let t = vec!['て', 'ら', 'っ', 'し', 'ゃ', 'る'];
    let rs = vec![Reason::MasuStem];
    proof {
        let e = rule_at(11);
        assert(f@ =~= e.from);
        assert(t@ =~= e.to);
        assert(rs@ =~= e.reasons);
        assert(rule_ok(e));
    }
    add_rule(rules, f, t, 1024, 2, rs);
    assert(rule_model(rules@[11]) == rule_at(11));
    let f = vec!['て', 'ら', 'っ', 'し', 'ゃ', 'る'];
    let t = vec![];
    let rs = vec![Reason::Respectful, Reason::Continuous];
    proof {
        let e = rule_at(12);
        assert(f@ =~= e.from);
        assert(t@ =~= e.to);
        assert(rs@ =~= e.reasons);
        assert(rule_ok(e));
    }
    add_rule(rules, f, t, 2, 256, rs);
    assert(rule_model(rules@[12]) == rule_at(12));
    let f = vec!['で', 'ら', 'っ', 'し', 'ゃ', 'い'];
    let t = vec![];
    let rs = vec![Reason::Respectful, Reason::Continuous, Reason::Imperative];
    proof {
        let e = rule_at(13);
        assert(f@ =~= e.from);
        assert(t@ =~= e.to);
        assert(rs@ =~= e.reasons);
        assert(rule_ok(e));
    }
    add_rule(rules, f, t, 128, 512, rs);
    assert(rule_model(rules@[13]) == rule_at(13));
    let f = vec!['で', 'ら', 'っ', 'し', 'ゃ', 'い'];
    let t = vec!['で', 'ら', 'っ', 'し', 'ゃ', 'る'];
    let rs = vec![Reason::MasuStem];
    proof {
        let e = rule_at(14);
        assert(f@ =~= e.from);
        assert(t@ =~= e.to);
        assert(rs@ =~= e.reasons);
        assert(rule_ok(e));
    }
    add_rule(rules, f, t, 1024, 2, rs);
    assert(rule_model(rules@[14]) == rule_at(14));
    let f = vec!['で', 'ら', 'っ', 'し', 'ゃ', 'る'];
    let t = vec![];
    let rs = vec![Reason::Respectful, Reason::Continuous];
    proof {
        let e = rule_at(15);
        assert(f@ =~= e.from);
        assert(t@ =~= e.to);
        assert(rs@ =~= e.reasons);
        assert(rule_ok(e));
    }
    add_rule(rules, f, t, 2, 512, rs);
    assert(rule_model(rules@[15]) == rule_at(15));
}

fn add_rules_from_16(rules: &mut Vec<DeinflectionRule>)
    requires
        old(rules)@.len() == 16,
        forall|j: int| 0 <= j < 16 ==> rule_model(#[trigger] old(rules)@[j]) == rule_at(j) && rule_ok(rule_at(j)),
    ensures
        final(rules)@.len() == 24,
        forall|j: int| 0 <= j < 24 ==> rule_model(#[trigger] final(rules)@[j]) == rule_at(j) && rule_ok(rule_at(j)),
{
    let f = vec!['お', 'っ', 'し', 'ゃ', 'い'];
    let t = vec!['お', 'っ', 'し', 'ゃ', 'る'];
    let rs = vec![Reason::MasuStem];
    proof {
        let e = rule_at(16);
        assert(f@ =~= e.from);
        assert(t@ =~= e.to);
        assert(rs@ =~= e.reasons);
        assert(rule_ok(e));
    }
    add_rule(rules, f, t, 1024, 2, rs);
    assert(rule_model(rules@[16]) == rule_at(16));
    let f = vec!['お', 'っ', 'し', 'ゃ', 'い'];
    let t = vec!['お', 'っ', 'し', 'ゃ', 'る'];
    let rs = vec![Reason::Imperative];
    proof {
        let e = rule_at(17);
        assert(f@ =~= e.from);
        assert(t@ =~= e.to);
        assert(rs@ =~= e.reasons);
        assert(rule_ok(e));
    }
    add_rule(rules, f, t, 128, 2, rs);
    assert(rule_model(rules@[17]) == rule_at(17));
    let f = vec!['ざ', 'る', 'え', 'な', 'い'];
    let t = vec![];
    let rs = vec![Reason::ZaruWoEnai];
    proof {
        let e = rule_at(18);
        assert(f@ =~= e.from);
        assert(t@ =~= e.to);
        assert(rs@ =~= e.reasons);
        assert(rule_ok(e));
    }
    add_rule(rules, f, t, 4, 2048, rs);
    assert(rule_model(rules@[18]) == rule_at(18));
    let f = vec!['ざ', 'る', '得', 'な', 'い'];
    let t = vec![];
    let rs = vec![Reason::ZaruWoEnai];
    proof {
        let e = rule_at(19);
        assert(f@ =~= e.from);
        assert(t@ =~= e.to);
        assert(rs@ =~= e.reasons);
        assert(rule_ok(e));
    }
    add_rule(rules, f, t, 4, 2048, rs);
    assert(rule_model(rules@[19]) == rule_at(19));
    let f = vec!['ざ', 'る', 'を', 'え', 'ぬ'];
    let t = vec![];
    let rs = vec![Reason::ZaruWoEnai];
    proof {
        let e = rule_at(20);
        assert(f@ =~= e.from);
        assert(t@ =~= e.to);
        assert(rs@ =~= e.reasons);
        assert(rule_ok(e));
    }
    add_rule(rules, f, t, 4, 2048, rs);
    assert(rule_model(rules@[20]) == rule_at(20));
    let f = vec!['ざ', 'る', 'を', '得', 'ぬ'];
    let t = vec![];
    let rs = vec![Reason::ZaruWoEnai];
    proof {
        let e = rule_at(21);
        assert(f@ =~= e.from);
        assert(t@ =~= e.to);
        assert(rs@ =~= e.reasons);
        assert(rule_ok(e));
    }
    add_rule(rules, f, t, 4, 2048, rs);
    assert(rule_model(rules@[21]) == rule_at(21));
    let f = vec!['ざ', 'る', 'え', 'ぬ'];
    let t = vec![];
    let rs = vec![Reason::ZaruWoEnai];
    proof {
        let e = rule_at(22);
        assert(f@ =~= e.from);
        assert(t@ =~= e.to);
        assert(rs@ =~= e.reasons);
        assert(rule_ok(e));
    }
    add_rule(rules, f, t, 4, 2048, rs);
    assert(rule_model(rules@[22]) == rule_at(22));
    let f = vec!['ざ', 'る', '得', 'ぬ'];
    let t = vec![];
    let rs = vec![Reason::ZaruWoEnai];
    proof {
        let e = rule_at(23);
        assert(f@ =~= e.from);
        assert(t@ =~= e.to);
        assert(rs@ =~= e.reasons);
        assert(rule_ok(e));
    }
    add_rule(rules, f, t, 4, 2048, rs);
    assert(rule_model(rules@[23]) == rule_at(23));
}

fn add_rules_from_24(rules: &mut Vec<DeinflectionRule>)
    requires
        old(rules)@.len() == 24,
        forall|j: int| 0 <= j < 24 ==> rule_model(#[trigger] old(rules)@[j]) == rule_at(j) && rule_ok(rule_at(j)),
    ensures
        final(rules)@.len() == 32,
        forall|j: int| 0 <= j < 32 ==> rule_model(#[trigger] final(rules)@[j]) == rule_at(j) && rule_ok(rule_at(j)),
{
    let f = vec!['か', 'っ', 'た', 'ら'];
    let t = vec!['い'];
    let rs = vec![Reason::Tara];
    proof {
        let e = rule_at(24);
        assert(f@ =~= e.from);
        assert(t@ =~= e.to);
        assert(rs@ =~= e.reasons);
        assert(rule_ok(e));
    }
    add_rule(rules, f, t, 128, 4, rs);
    assert(rule_model(rules@[24]) == rule_at(24));
    let f = vec!['か', 'っ', 'た', 'り'];
    let t = vec!['い'];
    let rs = vec![Reason::Tari];
    proof {
        let e = rule_at(25);
        assert(f@ =~= e.from);
        assert(t@ =~= e.to);
        assert(rs@ =~= e.reasons);
        assert(rule_ok(e));
    }
    add_rule(rules, f, t, 128, 4, rs);
    assert(rule_model(rules@[25]) == rule_at(25));
    let f = vec!['く', 'だ', 'さ', 'い'];
    let t = vec!['く', 'だ', 'さ', 'る'];
    let rs = vec![Reason::MasuStem];
    proof {
        let e = rule_at(26);
        assert(f@ =~= e.from);
        assert(t@ =~= e.to);
        assert(rs@ =~= e.reasons);
        assert(rule_ok(e));
    }
    add_rule(rules, f, t, 1024, 2, rs);
    assert(rule_model(rules@[26]) == rule_at(26));
    let f = vec!['く', 'だ', 'さ', 'い'];
    let t = vec!['く', 'だ', 'さ', 'る'];
    let rs = vec![Reason::Imperative];
    proof {
        let e = rule_at(27);
        assert(f@ =~= e.from);
        assert(t@ =~= e.to);
        assert(rs@ =~= e.reasons);
        assert(rule_ok(e));
    }
    add_rule(rules, f, t, 128, 2, rs);
    assert(rule_model(rules@[27]) == rule_at(27));
    let f = vec!['こ', 'さ', 'せ', 'る'];
    let t = vec!['く', 'る'];
    let rs = vec![Reason::Causative];
    proof {
        let e = rule_at(28);
        assert(f@ =~= e.from);
        assert(t@ =~= e.to);
        assert(rs@ =~= e.reasons);
        assert(rule_ok(e));
    }
    add_rule(rules, f, t, 1, 8, rs);
    assert(rule_model(rules@[28]) == rule_at(28));
    let f = vec!['こ', 'ら', 'れ', 'る'];
    let t = vec!['く', 'る'];
    let rs = vec![Reason::PotentialOrPassive];
    proof {
        let e = rule_at(29);
        assert(f@ =~= e.from);
        assert(t@ =~= e.to);
        assert(rs@ =~= e.reasons);
        assert(rule_ok(e));
    }
    add_rule(rules, f, t, 1, 8, rs);
    assert(rule_model(rules@[29]) == rule_at(29));
    let f = vec!['さ', 'な', 'い', 'で'];
    let t = vec!['す', 'る'];
    let rs = vec![Reason::Irregular, Reason::NegativeTe];
    proof {
        let e = rule_at(30);
        assert(f@ =~= e.from);
        assert(t@ =~= e.to);
        assert(rs@ =~= e.reasons);
        assert(rule_ok(e));
    }
    add_rule(rules, f, t, 128, 32, rs);
    assert(rule_model(rules@[30]) == rule_at(30));
    let f = vec!['し', 'な', 'い', 'で'];
    let t = vec!['す', 'る'];
    let rs = vec![Reason::NegativeTe];
    proof {
        let e = rule_at(31);
        assert(f@ =~= e.from);
        assert(t@ =~= e.to);
        assert(rs@ =~= e.reasons);
        assert(rule_ok(e));
    }
    add_rule(rules, f, t, 128, 16, rs);
    assert(rule_model(rules@[31]) == rule_at(31));
}

fn add_rules_from_32(rules: &mut Vec<DeinflectionRule>)
    requires
        old(rules)@.len() == 32,
        forall|j: int| 0 <= j < 32 ==> rule_model(#[trigger] old(rules)@[j]) == rule_at(j) && rule_ok(rule_at(j)),
    ensures
        final(rules)@.len() == 40,
        forall|j: int| 0 <= j < 40 ==> rule_model(#[trigger] final(rules)@[j]) == rule_at(j) && rule_ok(rule_at(j)),
{
    let f = vec!['し', 'さ', 'せ', 'る'];
    let t = vec!['す', 'る'];
    let rs = vec![Reason::Irregular, Reason::Causative];
    proof {
        let e = rule_at(32);
        assert(f@ =~= e.from);
        assert(t@ =~= e.to);
        assert(rs@ =~= e.reasons);
        assert(rule_ok(e));
    }
    add_rule(rules, f, t, 1, 32, rs);
    assert(rule_model(rules@[32]) == rule_at(32));
    let f = vec!['し', 'ら', 'れ', 'る'];
    let t = vec!['す', 'る'];
    let rs = vec![Reason::Irregular, Reason::PotentialOrPassive];
    proof {
        let e = rule_at(33);
        assert(f@ =~= e.from);
        assert(t@ =~= e.to);
        assert(rs@ =~= e.reasons);
        assert(rule_ok(e));
    }
    add_rule(rules, f, t, 1, 32, rs);
    assert(rule_model(rules@[33]) == rule_at(33));
    let f = vec!['せ', 'さ', 'せ', 'る'];
    let t = vec!['す', 'る'];
    let rs = vec![Reason::Irregular, Reason::Causative];
    proof {
        let e = rule_at(34);
        assert(f@ =~= e.from);
        assert(t@ =~= e.to);
        assert(rs@ =~= e.reasons);
        assert(rule_ok(e));
    }
    add_rule(rules, f, t, 1, 32, rs);
    assert(rule_model(rules@[34]) == rule_at(34));
    let f = vec!['せ', 'ら', 'れ', 'る'];
    let t = vec!['す', 'る'];
    let rs = vec![Reason::Irregular, Reason::PotentialOrPassive];
    proof {
        let e = rule_at(35);
        assert(f@ =~= e.from);
        assert(t@ =~= e.to);
        assert(rs@ =~= e.reasons);
        assert(rule_ok(e));
    }
    add_rule(rules, f, t, 1, 32, rs);
    assert(rule_model(rules@[35]) == rule_at(35));
    let f = vec!['ぜ', 'さ', 'せ', 'る'];
    let t = vec!['ず', 'る'];
    let rs = vec![Reason::Irregular, Reason::Causative];
    proof {
        let e = rule_at(36);
        assert(f@ =~= e.from);
        assert(t@ =~= e.to);
        assert(rs@ =~= e.reasons);
        assert(rule_ok(e));
    }
    add_rule(rules, f, t, 1, 32, rs);
    assert(rule_model(rules@[36]) == rule_at(36));
    let f = vec!['ぜ', 'ら', 'れ', 'る'];
    let t = vec!['ず', 'る'];
    let rs = vec![Reason::Irregular, Reason::PotentialOrPassive];
    proof {
        let e = rule_at(37);
        assert(f@ =~= e.from);
        assert(t@ =~= e.to);
        assert(rs@ =~= e.reasons);
        assert(rule_ok(e));
    }
    add_rule(rules, f, t, 1, 32, rs);
    assert(rule_model(rules@[37]) == rule_at(37));
    let f = vec!['た', 'ゆ', 'た', 'う'];
    let t = vec!['た', 'ゆ', 'た', 'う'];
    let rs = vec![];
    proof {
        let e = rule_at(38);
        assert(f@ =~= e.from);
        assert(t@ =~= e.to);
        assert(rs@ =~= e.reasons);
        assert(rule_ok(e));
    }
    add_rule(rules, f, t, 256, 2, rs);
    assert(rule_model(rules@[38]) == rule_at(38));
    let f = vec!['た', 'ゆ', 'と', 'う'];
    let t = vec!['た', 'ゆ', 'と', 'う'];
    let rs = vec![];
    proof {
        let e = rule_at(39);
        assert(f@ =~= e.from);
        assert(t@ =~= e.to);
        assert(rs@ =~= e.reasons);
        assert(rule_ok(e));
    }
    add_rule(rules, f, t, 256, 2, rs);
    assert(rule_model(rules@[39]) == rule_at(39));
}

fn add_rules_from_40(rules: &mut Vec<DeinflectionRule>)
    requires
        old(rules)@.len() == 40,
        forall|j: int| 0 <= j < 40 ==> rule_model(#[trigger] old(rules)@[j]) == rule_at(j) && rule_ok(rule_at(j)),
    ensures
        final(rules)@.len() == 48,
        forall|j: int| 0 <= j < 48 ==> rule_model(#[trigger] final(rules)@[j]) == rule_at(j) && rule_ok(rule_at(j)),
{
    let f = vec!['の', 'た', 'ま', 'う'];
    let t = vec!['の', 'た', 'ま', 'う'];
    let rs = vec![];
    proof {
        let e = rule_at(40);
        assert(f@ =~= e.from);
        assert(t@ =~= e.to);
        assert(rs@ =~= e.reasons);
        assert(rule_ok(e));
    }
    add_rule(rules, f, t, 256, 2, rs);
    assert(rule_model(rules@[40]) == rule_at(40));
    let f = vec!['の', 'た', 'も', 'う'];
    let t = vec!['の', 'た', 'も', 'う'];
    let rs = vec![];
    proof {
        let e = rule_at(41);
        assert(f@ =~= e.from);
        assert(t@ =~= e.to);
        assert(rs@ =~= e.reasons);
        assert(rule_ok(e));
    }
    add_rule(rules, f, t, 256, 2, rs);
    assert(rule_model(rules@[41]) == rule_at(41));
    let f = vec!['ま', 'し', 'た', 'ら'];
    let t = vec![];
    let rs = vec![Reason::Polite, Reason::Tara];
    proof {
        let e = rule_at(42);
        assert(f@ =~= e.from);
        assert(t@ =~= e.to);
        assert(rs@ =~= e.reasons);
        assert(rule_ok(e));
    }
    add_rule(rules, f, t, 128, 1024, rs);
    assert(rule_model(rules@[42]) == rule_at(42));
    let f = vec!['ま', 'し', 'た', 'り'];
    let t = vec![];
    let rs = vec![Reason::Polite, Reason::Tari];
    proof {
        let e = rule_at(43);
        assert(f@ =~= e.from);
        assert(t@ =~= e.to);
        assert(rs@ =~= e.reasons);
        assert(rule_ok(e));
    }
    add_rule(rules, f, t, 128, 1024, rs);
    assert(rule_model(rules@[43]) == rule_at(43));
    let f = vec!['ま', 'し', 'ょ', 'う'];
    let t = vec![];
    let rs = vec![Reason::PoliteVolitional];
    proof {
        let e = rule_at(44);
        assert(f@ =~= e.from);
        assert(t@ =~= e.to);
        assert(rs@ =~= e.reasons);
        assert(rule_ok(e));
    }
    add_rule(rules, f, t, 128, 1024, rs);
    assert(rule_model(rules@[44]) == rule_at(44));
    let f = vec!['い', 'た', 'す'];
    let t = vec![];
    let rs = vec![Reason::Humble];
    proof {
        let e = rule_at(45);
        assert(f@ =~= e.from);
        assert(t@ =~= e.to);
        assert(rs@ =~= e.reasons);
        assert(rule_ok(e));
    }
    add_rule(rules, f, t, 2, 1024, rs);
    assert(rule_model(rules@[45]) == rule_at(45));
    let f = vec!['い', 'た', 'す'];
    let t = vec![];
    let rs = vec![Reason::SuruNoun, Reason::Humble];
    proof {
        let e = rule_at(46);
        assert(f@ =~= e.from);
        assert(t@ =~= e.to);
        assert(rs@ =~= e.reasons);
        assert(rule_ok(e));
    }
    add_rule(rules, f, t, 2, 64, rs);
    assert(rule_model(rules@[46]) == rule_at(46));
    let f = vec!['か', 'っ', 'た'];
    let t = vec!['い'];
    let rs = vec![Reason::Past];
    proof {
        let e = rule_at(47);
        assert(f@ =~= e.from);
        assert(t@ =~= e.to);
        assert(rs@ =~= e.reasons);
        assert(rule_ok(e));
    }
    add_rule(rules, f, t, 128, 4, rs);
    assert(rule_model(rules@[47]) == rule_at(47));
}

fn add_rules_from_48(rules: &mut Vec<DeinflectionRule>)
    requires
        old(rules)@.len() == 48,
        forall|j: int| 0 <= j < 48 ==> rule_model(#[trigger] old(rules)@[j]) == rule_at(j) && rule_ok(rule_at(j)),
    ensures
        final(rules)@.len() == 56,
        forall|j: int| 0 <= j < 56 ==> rule_model(#[trigger] final(rules)@[j]) == rule_at(j) && rule_ok(rule_at(j)),
{
    let f = vec!['下', 'さ', 'い'];
    let t = vec!['下', 'さ', 'る'];
    let rs = vec![Reason::MasuStem];
    proof {
        let e = rule_at(48);
        assert(f@ =~= e.from);
        assert(t@ =~= e.to);
        assert(rs@ =~= e.reasons);
        assert(rule_ok(e));
    }
    add_rule(rules, f, t, 1024, 2, rs);
    assert(rule_model(rules@[48]) == rule_at(48));
    let f = vec!['下', 'さ', 'い'];
    let t = vec!['下', 'さ', 'る'];
    let rs = vec![Reason::Imperative];
    proof {
        let e = rule_at(49);
        assert(f@ =~= e.from);
        assert(t@ =~= e.to);
        assert(rs@ =~= e.reasons);
        assert(rule_ok(e));
    }
    add_rule(rules, f, t, 128, 2, rs);
    assert(rule_model(rules@[49]) == rule_at(49));
    let f = vec!['く', 'な', 'い'];
    let t = vec!['い'];
    let rs = vec![Reason::Negative];
    proof {
        let e = rule_at(50);
        assert(f@ =~= e.from);
        assert(t@ =~= e.to);
        assert(rs@ =~= e.reasons);
        assert(rule_ok(e));
    }
    add_rule(rules, f, t, 4, 4, rs);
    assert(rule_model(rules@[50]) == rule_at(50));
    let f = vec!['け', 'れ', 'ば'];
    let t = vec!['い'];
    let rs = vec![Reason::Ba];
    proof {
        let e = rule_at(51);
        assert(f@ =~= e.from);
        assert(t@ =~= e.to);
        assert(rs@ =~= e.reasons);
        assert(rule_ok(e));
    }
    add_rule(rules, f, t, 128, 4, rs);
    assert(rule_model(rules@[51]) == rule_at(51));
    let f = vec!['こ', 'よ', 'う'];
    let t = vec!['く', 'る'];
    let rs = vec![Reason::Volitional];
    proof {
        let e = rule_at(52);
        assert(f@ =~= e.from);
        assert(t@ =~= e.to);
        assert(rs@ =~= e.reasons);
        assert(rule_ok(e));
    }
    add_rule(rules, f, t, 128, 8, rs);
    assert(rule_model(rules@[52]) == rule_at(52));
    let f = vec!['こ', 'れ', 'る'];
    let t = vec!['く', 'る'];
    let rs = vec![Reason::Potential];
    proof {
        let e = rule_at(53);
        assert(f@ =~= e.from);
        assert(t@ =~= e.to);
        assert(rs@ =~= e.reasons);
        assert(rule_ok(e));
    }
    add_rule(rules, f, t, 1, 8, rs);
    assert(rule_model(rules@[53]) == rule_at(53));
    let f = vec!['来', 'れ', 'る'];
    let t = vec!['来', 'る'];
    let rs = vec![Reason::Potential];
    proof {
        let e = rule_at(54);
        assert(f@ =~= e.from);
        assert(t@ =~= e.to);
        assert(rs@ =~= e.reasons);
        assert(rule_ok(e));
    }
    add_rule(rules, f, t, 1, 8, rs);
    assert(rule_model(rules@[54]) == rule_at(54));
    let f = vec!['來', 'れ', 'る'];
    let t = vec!['來', 'る'];
    let rs = vec![Reason::Potential];
    proof {
        let e = rule_at(55);
        assert(f@ =~= e.from);
        assert(t@ =~= e.to);
        assert(rs@ =~= e.reasons);
        assert(rule_ok(e));
    }
    add_rule(rules, f, t, 1, 8, rs);
    assert(rule_model(rules@[55]) == rule_at(55));
}

fn add_rules_from_56(rules: &mut Vec<DeinflectionRule>)
    requires
        old(rules)@.len() == 56,
        forall|j: int| 0 <= j < 56 ==> rule_model(#[trigger] old(rules)@[j]) == rule_at(j) && rule_ok(rule_at(j)),
    ensures
        final(rules)@.len() == 64,
        forall|j: int| 0 <= j < 64 ==> rule_model(#[trigger] final(rules)@[j]) == rule_at(j) && rule_ok(rule_at(j)),
{
    let f = vec!['ご', 'ざ', 'い'];
    let t = vec!['ご', 'ざ', 'る'];
    let rs = vec![Reason::MasuStem];
    proof {
        let e = rule_at(56);
        assert(f@ =~= e.from);
        assert(t@ =~= e.to);
        assert(rs@ =~= e.reasons);
        assert(rule_ok(e));
    }
    add_rule(rules, f, t, 1024, 2, rs);
    assert(rule_model(rules@[56]) == rule_at(56));
    let f = vec!['ご', '座', 'い'];
    let t = vec!['ご', '座', 'る'];
    let rs = vec![Reason::MasuStem];
    proof {
        let e = rule_at(57);
        assert(f@ =~= e.from);
        assert(t@ =~= e.to);
        assert(rs@ =~= e.reasons);
        assert(rule_ok(e));
    }
    add_rule(rules, f, t, 1024, 2, rs);
    assert(rule_model(rules@[57]) == rule_at(57));
    let f = vec!['御', '座', 'い'];
    let t = vec!['御', '座', 'る'];
    let rs = vec![Reason::MasuStem];
    proof {
        let e = rule_at(58);
        assert(f@ =~= e.from);
        assert(t@ =~= e.to);
        assert(rs@ =~= e.reasons);
        assert(rule_ok(e));
    }
    add_rule(rules, f, t, 1024, 2, rs);
    assert(rule_model(rules@[58]) == rule_at(58));
    let f = vec!['さ', 'せ', 'る'];
    let t = vec!['る'];
    let rs = vec![Reason::Causative];
    proof {
        let e = rule_at(59);
        assert(f@ =~= e.from);
        assert(t@ =~= e.to);
        assert(rs@ =~= e.reasons);
        assert(rule_ok(e));
    }
    add_rule(rules, f, t, 1, 9, rs);
    assert(rule_model(rules@[59]) == rule_at(59));
    let f = vec!['さ', 'せ', 'る'];
    let t = vec!['す', 'る'];
    let rs = vec![Reason::Causative];
    proof {
        let e = rule_at(60);
        assert(f@ =~= e.from);
        assert(t@ =~= e.to);
        assert(rs@ =~= e.reasons);
        assert(rule_ok(e));
    }
    add_rule(rules, f, t, 1, 16, rs);
    assert(rule_model(rules@[60]) == rule_at(60));
    let f = vec!['さ', 'な', 'い'];
    let t = vec!['す', 'る'];
    let rs = vec![Reason::Irregular, Reason::Negative];
    proof {
        let e = rule_at(61);
        assert(f@ =~= e.from);
        assert(t@ =~= e.to);
        assert(rs@ =~= e.reasons);
        assert(rule_ok(e));
    }
    add_rule(rules, f, t, 4, 32, rs);
    assert(rule_model(rules@[61]) == rule_at(61));
    let f = vec!['さ', 'れ', 'る'];
    let t = vec![];
    let rs = vec![Reason::CausativePassive];
    proof {
        let e = rule_at(62);
        assert(f@ =~= e.from);
        assert(t@ =~= e.to);
        assert(rs@ =~= e.reasons);
        assert(rule_ok(e));
    }
    add_rule(rules, f, t, 1, 2048, rs);
    assert(rule_model(rules@[62]) == rule_at(62));
    let f = vec!['さ', 'れ', 'る'];
    let t = vec!['す', 'る'];
    let rs = vec![Reason::Passive];
    proof {
        let e = rule_at(63);
        assert(f@ =~= e.from);
        assert(t@ =~= e.to);
        assert(rs@ =~= e.reasons);
        assert(rule_ok(e));
    }
    add_rule(rules, f, t, 1, 16, rs);
    assert(rule_model(rules@[63]) == rule_at(63));
}

fn add_rules_from_64(rules: &mut Vec<DeinflectionRule>)
    requires
        old(rules)@.len() == 64,
        forall|j: int| 0 <= j < 64 ==> rule_model(#[trigger] old(rules)@[j]) == rule_at(j) && rule_ok(rule_at(j)),
    ensures
        final(rules)@.len() == 72,
        forall|j: int| 0 <= j < 72 ==> rule_model(#[trigger] final(rules)@[j]) == rule_at(j) && rule_ok(rule_at(j)),
{
    let f = vec!['し', 'う', 'る'];
    let t = vec!['す', 'る'];
    let rs = vec![Reason::EruUru];
    proof {
        let e = rule_at(64);
        assert(f@ =~= e.from);
        assert(t@ =~= e.to);
        assert(rs@ =~= e.reasons);
        assert(rule_ok(e));
    }
    add_rule(rules, f, t, 128, 16, rs);
    assert(rule_model(rules@[64]) == rule_at(64));
    let f = vec!['し', 'え', 'る'];
    let t = vec!['す', 'る'];
    let rs = vec![Reason::EruUru];
    proof {
        let e = rule_at(65);
        assert(f@ =~= e.from);
        assert(t@ =~= e.to);
        assert(rs@ =~= e.reasons);
        assert(rule_ok(e));
    }
    add_rule(rules, f, t, 1, 16, rs);
    assert(rule_model(rules@[65]) == rule_at(65));
    let f = vec!['し', 'な', 'い'];
    let t = vec!['す', 'る'];
    let rs = vec![Reason::Negative];
    proof {
        let e = rule_at(66);
        assert(f@ =~= e.from);
        assert(t@ =~= e.to);
        assert(rs@ =~= e.reasons);
        assert(rule_ok(e));
    }
    add_rule(rules, f, t, 4, 16, rs);
    assert(rule_model(rules@[66]) == rule_at(66));
    let f = vec!['し', 'よ', 'う'];
    let t = vec!['す', 'る'];
    let rs = vec![Reason::Volitional];
    proof {
        let e = rule_at(67);
        assert(f@ =~= e.from);
        assert(t@ =~= e.to);
        assert(rs@ =~= e.reasons);
        assert(rule_ok(e));
    }
    add_rule(rules, f, t, 128, 16, rs);
    assert(rule_model(rules@[67]) == rule_at(67));
    let f = vec!['じ', 'ゃ', 'う'];
    let t = vec![];
    let rs = vec![Reason::Chau];
    proof {
        let e = rule_at(68);
        assert(f@ =~= e.from);
        assert(t@ =~= e.to);
        assert(rs@ =~= e.reasons);
        assert(rule_ok(e));
    }
    add_rule(rules, f, t, 2, 512, rs);
    assert(rule_model(rules@[68]) == rule_at(68));
    let f = vec!['す', 'ぎ', 'る'];
    let t = vec!['い'];
    let rs = vec![Reason::Sugiru];
    proof {
        let e = rule_at(69);
        assert(f@ =~= e.from);
        assert(t@ =~= e.to);
        assert(rs@ =~= e.reasons);
        assert(rule_ok(e));
    }
    add_rule(rules, f, t, 1, 4, rs);
    assert(rule_model(rules@[69]) == rule_at(69));
    let f = vec!['す', 'ぎ', 'る'];
    let t = vec![];
    let rs = vec![Reason::Sugiru];
    proof {
        let e = rule_at(70);
        assert(f@ =~= e.from);
        assert(t@ =~= e.to);
        assert(rs@ =~= e.reasons);
        assert(rule_ok(e));
    }
    add_rule(rules, f, t, 1, 1024, rs);
    assert(rule_model(rules@[70]) == rule_at(70));
    let f = vec!['過', 'ぎ', 'る'];
    let t = vec!['い'];
    let rs = vec![Reason::Sugiru];
    proof {
        let e = rule_at(71);
        assert(f@ =~= e.from);
        assert(t@ =~= e.to);
        assert(rs@ =~= e.reasons);
        assert(rule_ok(e));
    }
    add_rule(rules, f, t, 1, 4, rs);
    assert(rule_model(rules@[71]) == rule_at(71));
}

fn add_rules_from_72(rules: &mut Vec<DeinflectionRule>)
    requires
        old(rules)@.len() == 72,
        forall|j: int| 0 <= j < 72 ==> rule_model(#[trigger] old(rules)@[j]) == rule_at(j) && rule_ok(rule_at(j)),
    ensures
        final(rules)@.len() == 80,
        forall|j: int| 0 <= j < 80 ==> rule_model(#[trigger] final(rules)@[j]) == rule_at(j) && rule_ok(rule_at(j)),
{
    let f = vec!['過', 'ぎ', 'る'];
    let t = vec![];
    let rs = vec![Reason::Sugiru];
    proof {
        let e = rule_at(72);
        assert(f@ =~= e.from);
        assert(t@ =~= e.to);
        assert(rs@ =~= e.reasons);
        assert(rule_ok(e));
    }
    add_rule(rules, f, t, 1, 1024, rs);
    assert(rule_model(rules@[72]) == rule_at(72));
    let f = vec!['ず', 'れ', 'ば'];
    let t = vec!['ず', 'る'];
    let rs = vec![Reason::Irregular, Reason::Ba];
    proof {
        let e = rule_at(73);
        assert(f@ =~= e.from);
        assert(t@ =~= e.to);
        assert(rs@ =~= e.reasons);
        assert(rule_ok(e));
    }
    add_rule(rules, f, t, 128, 32, rs);
    assert(rule_model(rules@[73]) == rule_at(73));
    let f = vec!['た', 'ま', 'う'];
    let t = vec!['た', 'ま', 'う'];
    let rs = vec![];
    proof {
        let e = rule_at(74);
        assert(f@ =~= e.from);
        assert(t@ =~= e.to);
        assert(rs@ =~= e.reasons);
        assert(rule_ok(e));
    }
    add_rule(rules, f, t, 256, 2, rs);
    assert(rule_model(rules@[74]) == rule_at(74));
    let f = vec!['た', 'も', 'う'];
    let t = vec!['た', 'も', 'う'];
    let rs = vec![];
    proof {
        let e = rule_at(75);
        assert(f@ =~= e.from);
        assert(t@ =~= e.to);
        assert(rs@ =~= e.reasons);
        assert(rule_ok(e));
    }
    add_rule(rules, f, t, 256, 2, rs);
    assert(rule_model(rules@[75]) == rule_at(75));
    let f = vec!['揺', '蕩', 'う'];
    let t = vec!['揺', '蕩', 'う'];
    let rs = vec![];
    proof {
        let e = rule_at(76);
        assert(f@ =~= e.from);
        assert(t@ =~= e.to);
        assert(rs@ =~= e.reasons);
        assert(rule_ok(e));
    }
    add_rule(rules, f, t, 256, 2, rs);
    assert(rule_model(rules@[76]) == rule_at(76));
    let f = vec!['ち', 'ゃ', 'う'];
    let t = vec![];
    let rs = vec![Reason::Chau];
    proof {
        let e = rule_at(77);
        assert(f@ =~= e.from);
        assert(t@ =~= e.to);
        assert(rs@ =~= e.reasons);
        assert(rule_ok(e));
    }
    add_rule(rules, f, t, 2, 256, rs);
    assert(rule_model(rules@[77]) == rule_at(77));
    let f = vec!['て', 'い', 'る'];
    let t = vec![];
    let rs = vec![Reason::Continuous];
    proof {
        let e = rule_at(78);
        assert(f@ =~= e.from);
        assert(t@ =~= e.to);
        assert(rs@ =~= e.reasons);
        assert(rule_ok(e));
    }
    add_rule(rules, f, t, 1, 256, rs);
    assert(rule_model(rules@[78]) == rule_at(78));
    let f = vec!['て', 'お', 'る'];
    let t = vec![];
    let rs = vec![Reason::HumbleOrKansaiDialect, Reason::Continuous];
    proof {
        let e = rule_at(79);
        assert(f@ =~= e.from);
        assert(t@ =~= e.to);
        assert(rs@ =~= e.reasons);
        assert(rule_ok(e));
    }
    add_rule(rules, f, t, 2, 256, rs);
    assert(rule_model(rules@[79]) == rule_at(79));
}

fn add_rules_from_80(rules: &mut Vec<DeinflectionRule>)
    requires
        old(rules)@.len() == 80,
        forall|j: int| 0 <= j < 80 ==> rule_model(#[trigger] old(rules)@[j]) == rule_at(j) && rule_ok(rule_at(j)),
    ensures
        final(rules)@.len() == 88,
        forall|j: int| 0 <= j < 88 ==> rule_model(#[trigger] final(rules)@[j]) == rule_at(j) && rule_ok(rule_at(j)),
{
    let f = vec!['で', 'い', 'る'];
    let t = vec![];
    let rs = vec![Reason::Continuous];
    proof {
        let e = rule_at(80);
        assert(f@ =~= e.from);
        assert(t@ =~= e.to);
        assert(rs@ =~= e.reasons);
        assert(rule_ok(e));
    }
    add_rule(rules, f, t, 1, 512, rs);
    assert(rule_model(rules@[80]) == rule_at(80));
    let f = vec!['で', 'お', 'る'];
    let t = vec![];
    let rs = vec![Reason::HumbleOrKansaiDialect, Reason::Continuous];
    proof {
        let e = rule_at(81);
        assert(f@ =~= e.from);
        assert(t@ =~= e.to);
        assert(rs@ =~= e.reasons);
        assert(rule_ok(e));
    }
    add_rule(rules, f, t, 2, 512, rs);
    assert(rule_model(rules@[81]) == rule_at(81));
    let f = vec!['で', 'き', 'る'];
    let t = vec!['す', 'る'];
    let rs = vec![Reason::Potential];
    proof {
        let e = rule_at(82);
        assert(f@ =~= e.from);
        assert(t@ =~= e.to);
        assert(rs@ =~= e.reasons);
        assert(rule_ok(e));
    }
    add_rule(rules, f, t, 1, 16, rs);
    assert(rule_model(rules@[82]) == rule_at(82));
    let f = vec!['な', 'い', 'で'];
    let t = vec![];
    let rs = vec![Reason::NegativeTe];
    proof {
        let e = rule_at(83);
        assert(f@ =~= e.from);
        assert(t@ =~= e.to);
        assert(rs@ =~= e.reasons);
        assert(rule_ok(e));
    }
    add_rule(rules, f, t, 128, 2048, rs);
    assert(rule_model(rules@[83]) == rule_at(83));
    let f = vec!['な', 'さ', 'い'];
    let t = vec![];
    let rs = vec![Reason::Respectful, Reason::Imperative];
    proof {
        let e = rule_at(84);
        assert(f@ =~= e.from);
        assert(t@ =~= e.to);
        assert(rs@ =~= e.reasons);
        assert(rule_ok(e));
    }
    add_rule(rules, f, t, 128, 1024, rs);
    assert(rule_model(rules@[84]) == rule_at(84));
    let f = vec!['な', 'さ', 'い'];
    let t = vec!['な', 'さ', 'る'];
    let rs = vec![Reason::MasuStem];
    proof {
        let e = rule_at(85);
        assert(f@ =~= e.from);
        assert(t@ =~= e.to);
        assert(rs@ =~= e.reasons);
        assert(rule_ok(e));
    }
    add_rule(rules, f, t, 1024, 2, rs);
    assert(rule_model(rules@[85]) == rule_at(85));
    let f = vec!['な', 'さ', 'い'];
    let t = vec!['な', 'さ', 'る'];
    let rs = vec![Reason::Imperative];
    proof {
        let e = rule_at(86);
        assert(f@ =~= e.from);
        assert(t@ =~= e.to);
        assert(rs@ =~= e.reasons);
        assert(rule_ok(e));
    }
    add_rule(rules, f, t, 128, 2, rs);
    assert(rule_model(rules@[86]) == rule_at(86));
    let f = vec!['な', 'さ', 'る'];
    let t = vec![];
    let rs = vec![Reason::Respectful];
    proof {
        let e = rule_at(87);
        assert(f@ =~= e.from);
        assert(t@ =~= e.to);
        assert(rs@ =~= e.reasons);
        assert(rule_ok(e));
    }
    add_rule(rules, f, t, 2, 1024, rs);
    assert(rule_model(rules@[87]) == rule_at(87));
}

fn add_rules_from_88(rules: &mut Vec<DeinflectionRule>)
    requires
        old(rules)@.len() == 88,
        forall|j: int| 0 <= j < 88 ==> rule_model(#[trigger] old(rules)@[j]) == rule_at(j) && rule_ok(rule_at(j)),
    ensures
        final(rules)@.len() == 96,
        forall|j: int| 0 <= j < 96 ==> rule_model(#[trigger] final(rules)@[j]) == rule_at(j) && rule_ok(rule_at(j)),
{
    let f = vec!['な', 'さ', 'る'];
    let t = vec![];
    let rs = vec![Reason::SuruNoun, Reason::Respectful];
    proof {
        let e = rule_at(88);
        assert(f@ =~= e.from);
        assert(t@ =~= e.to);
        assert(rs@ =~= e.reasons);
        assert(rule_ok(e));
    }
    add_rule(rules, f, t, 2, 64, rs);
    assert(rule_model(rules@[88]) == rule_at(88));
    let f = vec!['に', 'な', 'る'];
    let t = vec![];
    let rs = vec![Reason::Respectful];
    proof {
        let e = rule_at(89);
        assert(f@ =~= e.from);
        assert(t@ =~= e.to);
        assert(rs@ =~= e.reasons);
        assert(rule_ok(e));
    }
    add_rule(rules, f, t, 2, 1024, rs);
    assert(rule_model(rules@[89]) == rule_at(89));
    let f = vec!['に', 'な', 'る'];
    let t = vec![];
    let rs = vec![Reason::SuruNoun, Reason::Respectful];
    proof {
        let e = rule_at(90);
        assert(f@ =~= e.from);
        assert(t@ =~= e.to);
        assert(rs@ =~= e.reasons);
        assert(rule_ok(e));
    }
    add_rule(rules, f, t, 2, 64, rs);
    assert(rule_model(rules@[90]) == rule_at(90));
    let f = vec!['ま', 'し', 'た'];
    let t = vec![];
    let rs = vec![Reason::PolitePast];
    proof {
        let e = rule_at(91);
        assert(f@ =~= e.from);
        assert(t@ =~= e.to);
        assert(rs@ =~= e.reasons);
        assert(rule_ok(e));
    }
    add_rule(rules, f, t, 128, 1024, rs);
    assert(rule_model(rules@[91]) == rule_at(91));
    let f = vec!['ま', 'し', 'て'];
    let t = vec![];
    let rs = vec![Reason::Polite, Reason::Te];
    proof {
        let e = rule_at(92);
        assert(f@ =~= e.from);
        assert(t@ =~= e.to);
        assert(rs@ =~= e.reasons);
        assert(rule_ok(e));
    }
    add_rule(rules, f, t, 128, 1024, rs);
    assert(rule_model(rules@[92]) == rule_at(92));
    let f = vec!['ま', 'せ', 'ん'];
    let t = vec![];
    let rs = vec![Reason::PoliteNegative];
    proof {
        let e = rule_at(93);
        assert(f@ =~= e.from);
        assert(t@ =~= e.to);
        assert(rs@ =~= e.reasons);
        assert(rule_ok(e));
    }
    add_rule(rules, f, t, 128, 1024, rs);
    assert(rule_model(rules@[93]) == rule_at(93));
    let f = vec!['ら', 'れ', 'る'];
    let t = vec!['る'];
    let rs = vec![Reason::PotentialOrPassive];
    proof {
        let e = rule_at(94);
        assert(f@ =~= e.from);
        assert(t@ =~= e.to);
        assert(rs@ =~= e.reasons);
        assert(rule_ok(e));
    }
    add_rule(rules, f, t, 1, 9, rs);
    assert(rule_model(rules@[94]) == rule_at(94));
    let f = vec!['致', 'す'];
    let t = vec![];
    let rs = vec![Reason::Humble];
    proof {
        let e = rule_at(95);
        assert(f@ =~= e.from);
        assert(t@ =~= e.to);
        assert(rs@ =~= e.reasons);
        assert(rule_ok(e));
    }
    add_rule(rules, f, t, 2, 1024, rs);
    assert(rule_model(rules@[95]) == rule_at(95));
}

fn add_rules_from_96(rules: &mut Vec<DeinflectionRule>)
    requires
        old(rules)@.len() == 96,
        forall|j: int| 0 <= j < 96 ==> rule_model(#[trigger] old(rules)@[j]) == rule_at(j) && rule_ok(rule_at(j)),
    ensures
        final(rules)@.len() == 104,
        forall|j: int| 0 <= j < 104 ==> rule_model(#[trigger] final(rules)@[j]) == rule_at(j) && rule_ok(rule_at(j)),
{
    let f = vec!['致', 'す'];
    let t = vec![];
    let rs = vec![Reason::SuruNoun, Reason::Humble];
    proof {
        let e = rule_at(96);
        assert(f@ =~= e.from);
        assert(t@ =~= e.to);
        assert(rs@ =~= e.reasons);
        assert(rule_ok(e));
    }
    add_rule(rules, f, t, 2, 64, rs);
    assert(rule_model(rules@[96]) == rule_at(96));
    let f = vec!['え', 'ば'];
    let t = vec!['う'];
    let rs = vec![Reason::Ba];
    proof {
        let e = rule_at(97);
        assert(f@ =~= e.from);
        assert(t@ =~= e.to);
        assert(rs@ =~= e.reasons);
        assert(rule_ok(e));
    }
    add_rule(rules, f, t, 128, 2, rs);
    assert(rule_model(rules@[97]) == rule_at(97));
    let f = vec!['え', 'る'];
    let t = vec!['う'];
    let rs = vec![Reason::Potential];
    proof {
        let e = rule_at(98);
        assert(f@ =~= e.from);
        assert(t@ =~= e.to);
        assert(rs@ =~= e.reasons);
        assert(rule_ok(e));
    }
    add_rule(rules, f, t, 1, 2, rs);
    assert(rule_model(rules@[98]) == rule_at(98));
    let f = vec!['得', 'る'];
    let t = vec![];
    let rs = vec![Reason::EruUru];
    proof {
        let e = rule_at(99);
        assert(f@ =~= e.from);
        assert(t@ =~= e.to);
        assert(rs@ =~= e.reasons);
        assert(rule_ok(e));
    }
    add_rule(rules, f, t, 1, 1024, rs);
    assert(rule_model(rules@[99]) == rule_at(99));
    let f = vec!['お', 'う'];
    let t = vec!['う'];
    let rs = vec![Reason::Volitional];
    proof {
        let e = rule_at(100);
        assert(f@ =~= e.from);
        assert(t@ =~= e.to);
        assert(rs@ =~= e.reasons);
        assert(rule_ok(e));
    }
    add_rule(rules, f, t, 128, 2, rs);
    assert(rule_model(rules@[100]) == rule_at(100));
    let f = vec!['仰', 'い'];
    let t = vec!['仰', 'る'];
    let rs = vec![Reason::MasuStem];
    proof {
        let e = rule_at(101);
        assert(f@ =~= e.from);
        assert(t@ =~= e.to);
        assert(rs@ =~= e.reasons);
        assert(rule_ok(e));
    }
    add_rule(rules, f, t, 1024, 2, rs);
    assert(rule_model(rules@[101]) == rule_at(101));
    let f = vec!['仰', 'い'];
    let t = vec!['仰', 'る'];
    let rs = vec![Reason::Imperative];
    proof {
        let e = rule_at(102);
        assert(f@ =~= e.from);
        assert(t@ =~= e.to);
        assert(rs@ =~= e.reasons);
        assert(rule_ok(e));
    }
    add_rule(rules, f, t, 128, 2, rs);
    assert(rule_model(rules@[102]) == rule_at(102));
    let f = vec!['く', 'て'];
    let t = vec!['い'];
    let rs = vec![Reason::Te];
    proof {
        let e = rule_at(103);
        assert(f@ =~= e.from);
        assert(t@ =~= e.to);
        assert(rs@ =~= e.reasons);
        assert(rule_ok(e));
    }
    add_rule(rules, f, t, 128, 4, rs);
    assert(rule_model(rules@[103]) == rule_at(103));
}

fn add_rules_from_104(rules: &mut Vec<DeinflectionRule>)
    requires
        old(rules)@.len() == 104,
        forall|j: int| 0 <= j < 104 ==> rule_model(#[trigger] old(rules)@[j]) == rule_at(j) && rule_ok(rule_at(j)),
    ensures
        final(rules)@.len() == 112,
        forall|j: int| 0 <= j < 112 ==> rule_model(#[trigger] final(rules)@[j]) == rule_at(j) && rule_ok(rule_at(j)),
{
    let f = vec!['け', 'ば'];
    let t = vec!['く'];
    let rs = vec![Reason::Ba];
    proof {
        let e = rule_at(104);
        assert(f@ =~= e.from);
        assert(t@ =~= e.to);
        assert(rs@ =~= e.reasons);
        assert(rule_ok(e));
    }
    add_rule(rules, f, t, 128, 2, rs);
    assert(rule_model(rules@[104]) == rule_at(104));
    let f = vec!['げ', 'ば'];
    let t = vec!['ぐ'];
    let rs = vec![Reason::Ba];
    proof {
        let e = rule_at(105);
        assert(f@ =~= e.from);
        assert(t@ =~= e.to);
        assert(rs@ =~= e.reasons);
        assert(rule_ok(e));
    }
    add_rule(rules, f, t, 128, 2, rs);
    assert(rule_model(rules@[105]) == rule_at(105));
    let f = vec!['け', 'る'];
    let t = vec!['く'];
    let rs = vec![Reason::Potential];
    proof {
        let e = rule_at(106);
        assert(f@ =~= e.from);
        assert(t@ =~= e.to);
        assert(rs@ =~= e.reasons);
        assert(rule_ok(e));
    }
    add_rule(rules, f, t, 1, 2, rs);
    assert(rule_model(rules@[106]) == rule_at(106));
    let f = vec!['げ', 'る'];
    let t = vec!['ぐ'];
    let rs = vec![Reason::Potential];
    proof {
        let e = rule_at(107);
        assert(f@ =~= e.from);
        assert(t@ =~= e.to);
        assert(rs@ =~= e.reasons);
        assert(rule_ok(e));
    }
    add_rule(rules, f, t, 1, 2, rs);
    assert(rule_model(rules@[107]) == rule_at(107));
    let f = vec!['こ', 'い'];
    let t = vec!['く', 'る'];
    let rs = vec![Reason::Imperative];
    proof {
        let e = rule_at(108);
        assert(f@ =~= e.from);
        assert(t@ =~= e.to);
        assert(rs@ =~= e.reasons);
        assert(rule_ok(e));
    }
    add_rule(rules, f, t, 128, 8, rs);
    assert(rule_model(rules@[108]) == rule_at(108));
    let f = vec!['こ', 'う'];
    let t = vec!['く'];
    let rs = vec![Reason::Volitional];
    proof {
        let e = rule_at(109);
        assert(f@ =~= e.from);
        assert(t@ =~= e.to);
        assert(rs@ =~= e.reasons);
        assert(rule_ok(e));
    }
    add_rule(rules, f, t, 128, 2, rs);
    assert(rule_model(rules@[109]) == rule_at(109));
    let f = vec!['ご', 'う'];
    let t = vec!['ぐ'];
    let rs = vec![Reason::Volitional];
    proof {
        let e = rule_at(110);
        assert(f@ =~= e.from);
        assert(t@ =~= e.to);
        assert(rs@ =~= e.reasons);
        assert(rule_ok(e));
    }
    add_rule(rules, f, t, 128, 2, rs);
    assert(rule_model(rules@[110]) == rule_at(110));
    let f = vec!['し', 'ろ'];
    let t = vec!['す', 'る'];
    let rs = vec![Reason::Imperative];
    proof {
        let e = rule_at(111);
        assert(f@ =~= e.from);
        assert(t@ =~= e.to);
        assert(rs@ =~= e.reasons);
        assert(rule_ok(e));
    }
    add_rule(rules, f, t, 128, 16, rs);
    assert(rule_model(rules@[111]) == rule_at(111));
}

fn add_rules_from_112(rules: &mut Vec<DeinflectionRule>)
    requires
        old(rules)@.len() == 112,
        forall|j: int| 0 <= j < 112 ==> rule_model(#[trigger] old(rules)@[j]) == rule_at(j) && rule_ok(rule_at(j)),
    ensures
        final(rules)@.len() == 120,
        forall|j: int| 0 <= j < 120 ==> rule_model(#[trigger] final(rules)@[j]) == rule_at(j) && rule_ok(rule_at(j)),
{
    let f = vec!['さ', 'ず'];
    let t = vec!['す', 'る'];
    let rs = vec![Reason::Irregular, Reason::Zu];
    proof {
        let e = rule_at(112);
        assert(f@ =~= e.from);
        assert(t@ =~= e.to);
        assert(rs@ =~= e.reasons);
        assert(rule_ok(e));
    }
    add_rule(rules, f, t, 128, 32, rs);
    assert(rule_model(rules@[112]) == rule_at(112));
    let f = vec!['す', 'ぎ'];
    let t = vec!['い'];
    let rs = vec![Reason::Sugiru];
    proof {
        let e = rule_at(113);
        assert(f@ =~= e.from);
        assert(t@ =~= e.to);
        assert(rs@ =~= e.reasons);
        assert(rule_ok(e));
    }
    add_rule(rules, f, t, 128, 4, rs);
    assert(rule_model(rules@[113]) == rule_at(113));
    let f = vec!['す', 'ぎ'];
    let t = vec![];
    let rs = vec![Reason::Sugiru];
    proof {
        let e = rule_at(114);
        assert(f@ =~= e.from);
        assert(t@ =~= e.to);
        assert(rs@ =~= e.reasons);
        assert(rule_ok(e));
    }
    add_rule(rules, f, t, 128, 1024, rs);
    assert(rule_model(rules@[114]) == rule_at(114));
    let f = vec!['過', 'ぎ'];
    let t = vec!['い'];
    let rs = vec![Reason::Sugiru];
    proof {
        let e = rule_at(115);
        assert(f@ =~= e.from);
        assert(t@ =~= e.to);
        assert(rs@ =~= e.reasons);
        assert(rule_ok(e));
    }
    add_rule(rules, f, t, 128, 4, rs);
    assert(rule_model(rules@[115]) == rule_at(115));
    let f = vec!['過', 'ぎ'];
    let t = vec![];
    let rs = vec![Reason::Sugiru];
    proof {
        let e = rule_at(116);
        assert(f@ =~= e.from);
        assert(t@ =~= e.to);
        assert(rs@ =~= e.reasons);
        assert(rule_ok(e));
    }
    add_rule(rules, f, t, 128, 1024, rs);
    assert(rule_model(rules@[116]) == rule_at(116));
    let f = vec!['す', 'る'];
    let t = vec![];
    let rs = vec![Reason::SuruNoun];
    proof {
        let e = rule_at(117);
        assert(f@ =~= e.from);
        assert(t@ =~= e.to);
        assert(rs@ =~= e.reasons);
        assert(rule_ok(e));
    }
    add_rule(rules, f, t, 16, 64, rs);
    assert(rule_model(rules@[117]) == rule_at(117));
    let f = vec!['せ', 'ず'];
    let t = vec!['す', 'る'];
    let rs = vec![Reason::Zu];
    proof {
        let e = rule_at(118);
        assert(f@ =~= e.from);
        assert(t@ =~= e.to);
        assert(rs@ =~= e.reasons);
        assert(rule_ok(e));
    }
    add_rule(rules, f, t, 128, 16, rs);
    assert(rule_model(rules@[118]) == rule_at(118));
    let f = vec!['せ', 'ぬ'];
    let t = vec!['す', 'る'];
    let rs = vec![Reason::Negative];
    proof {
        let e = rule_at(119);
        assert(f@ =~= e.from);
        assert(t@ =~= e.to);
        assert(rs@ =~= e.reasons);
        assert(rule_ok(e));
    }
    add_rule(rules, f, t, 128, 16, rs);
    assert(rule_model(rules@[119]) == rule_at(119));
}

fn add_rules_from_120(rules: &mut Vec<DeinflectionRule>)
    requires
        old(rules)@.len() == 120,
        forall|j: int| 0 <= j < 120 ==> rule_model(#[trigger] old(rules)@[j]) == rule_at(j) && rule_ok(rule_at(j)),
    ensures
        final(rules)@.len() == 128,
        forall|j: int| 0 <= j < 128 ==> rule_model(#[trigger] final(rules)@[j]) == rule_at(j) && rule_ok(rule_at(j)),
{
    let f = vec!['せ', 'ん'];
    let t = vec!['す', 'る'];
    let rs = vec![Reason::Negative];
    proof {
        let e = rule_at(120);
        assert(f@ =~= e.from);
        assert(t@ =~= e.to);
        assert(rs@ =~= e.reasons);
        assert(rule_ok(e));
    }
    add_rule(rules, f, t, 128, 16, rs);
    assert(rule_model(rules@[120]) == rule_at(120));
    let f = vec!['せ', 'ば'];
    let t = vec!['す'];
    let rs = vec![Reason::Ba];
    proof {
        let e = rule_at(121);
        assert(f@ =~= e.from);
        assert(t@ =~= e.to);
        assert(rs@ =~= e.reasons);
        assert(rule_ok(e));
    }
    add_rule(rules, f, t, 128, 2, rs);
    assert(rule_model(rules@[121]) == rule_at(121));
    let f = vec!['せ', 'ば'];
    let t = vec!['す', 'る'];
    let rs = vec![Reason::Irregular, Reason::Ba];
    proof {
        let e = rule_at(122);
        assert(f@ =~= e.from);
        assert(t@ =~= e.to);
        assert(rs@ =~= e.reasons);
        assert(rule_ok(e));
    }
    add_rule(rules, f, t, 128, 32, rs);
    assert(rule_model(rules@[122]) == rule_at(122));
    let f = vec!['せ', 'よ'];
    let t = vec!['す', 'る'];
    let rs = vec![Reason::Imperative];
    proof {
        let e = rule_at(123);
        assert(f@ =~= e.from);
        assert(t@ =~= e.to);
        assert(rs@ =~= e.reasons);
        assert(rule_ok(e));
    }
    add_rule(rules, f, t, 128, 16, rs);
    assert(rule_model(rules@[123]) == rule_at(123));
    let f = vec!['せ', 'る'];
    let t = vec!['す'];
    let rs = vec![Reason::Potential];
    proof {
        let e = rule_at(124);
        assert(f@ =~= e.from);
        assert(t@ =~= e.to);
        assert(rs@ =~= e.reasons);
        assert(rule_ok(e));
    }
    add_rule(rules, f, t, 1, 2, rs);
    assert(rule_model(rules@[124]) == rule_at(124));
    let f = vec!['せ', 'る'];
    let t = vec![];
    let rs = vec![Reason::Causative];
    proof {
        let e = rule_at(125);
        assert(f@ =~= e.from);
        assert(t@ =~= e.to);
        assert(rs@ =~= e.reasons);
        assert(rule_ok(e));
    }
    add_rule(rules, f, t, 1, 2048, rs);
    assert(rule_model(rules@[125]) == rule_at(125));
    let f = vec!['ぜ', 'ず'];
    let t = vec!['ず', 'る'];
    let rs = vec![Reason::Irregular, Reason::Zu];
    proof {
        let e = rule_at(126);
        assert(f@ =~= e.from);
        assert(t@ =~= e.to);
        assert(rs@ =~= e.reasons);
        assert(rule_ok(e));
    }
    add_rule(rules, f, t, 128, 32, rs);
    assert(rule_model(rules@[126]) == rule_at(126));
    let f = vec!['ぜ', 'ぬ'];
    let t = vec!['ず', 'る'];
    let rs = vec![Reason::Irregular, Reason::Negative];
    proof {
        let e = rule_at(127);
        assert(f@ =~= e.from);
        assert(t@ =~= e.to);
        assert(rs@ =~= e.reasons);
        assert(rule_ok(e));
    }
    add_rule(rules, f, t, 128, 32, rs);
    assert(rule_model(rules@[127]) == rule_at(127));
}

fn add_rules_from_128(rules: &mut Vec<DeinflectionRule>)
    requires
        old(rules)@.len() == 128,
        forall|j: int| 0 <= j < 128 ==> rule_model(#[trigger] old(rules)@[j]) == rule_at(j) && rule_ok(rule_at(j)),
    ensures
        final(rules)@.len() == 136,
        forall|j: int| 0 <= j < 136 ==> rule_model(#[trigger] final(rules)@[j]) == rule_at(j) && rule_ok(rule_at(j)),
{
    let f = vec!['ぜ', 'よ'];
    let t = vec!['ず', 'る'];
    let rs = vec![Reason::Irregular, Reason::Imperative];
    proof {
        let e = rule_at(128);
        assert(f@ =~= e.from);
        assert(t@ =~= e.to);
        assert(rs@ =~= e.reasons);
        assert(rule_ok(e));
    }
    add_rule(rules, f, t, 128, 32, rs);
    assert(rule_model(rules@[128]) == rule_at(128));
    let f = vec!['そ', 'う'];
    let t = vec![];
    let rs = vec![Reason::Sou];
    proof {
        let e = rule_at(129);
        assert(f@ =~= e.from);
        assert(t@ =~= e.to);
        assert(rs@ =~= e.reasons);
        assert(rule_ok(e));
    }
    add_rule(rules, f, t, 128, 1024, rs);
    assert(rule_model(rules@[129]) == rule_at(129));
    let f = vec!['そ', 'う'];
    let t = vec!['い'];
    let rs = vec![Reason::Sou];
    proof {
        let e = rule_at(130);
        assert(f@ =~= e.from);
        assert(t@ =~= e.to);
        assert(rs@ =~= e.reasons);
        assert(rule_ok(e));
    }
    add_rule(rules, f, t, 128, 4, rs);
    assert(rule_model(rules@[130]) == rule_at(130));
    let f = vec!['そ', 'う'];
    let t = vec!['す'];
    let rs = vec![Reason::Volitional];
    proof {
        let e = rule_at(131);
        assert(f@ =~= e.from);
        assert(t@ =~= e.to);
        assert(rs@ =~= e.reasons);
        assert(rule_ok(e));
    }
    add_rule(rules, f, t, 128, 2, rs);
    assert(rule_model(rules@[131]) == rule_at(131));
    let f = vec!['そ', 'う'];
    let t = vec!['す', 'る'];
    let rs = vec![Reason::Irregular, Reason::Volitional];
    proof {
        let e = rule_at(132);
        assert(f@ =~= e.from);
        assert(t@ =~= e.to);
        assert(rs@ =~= e.reasons);
        assert(rule_ok(e));
    }
    add_rule(rules, f, t, 128, 32, rs);
    assert(rule_model(rules@[132]) == rule_at(132));
    let f = vec!['た', 'い'];
    let t = vec![];
    let rs = vec![Reason::Tai];
    proof {
        let e = rule_at(133);
        assert(f@ =~= e.from);
        assert(t@ =~= e.to);
        assert(rs@ =~= e.reasons);
        assert(rule_ok(e));
    }
    add_rule(rules, f, t, 4, 1024, rs);
    assert(rule_model(rules@[133]) == rule_at(133));
    let f = vec!['た', 'ら'];
    let t = vec![];
    let rs = vec![Reason::Tara];
    proof {
        let e = rule_at(134);
        assert(f@ =~= e.from);
        assert(t@ =~= e.to);
        assert(rs@ =~= e.reasons);
        assert(rule_ok(e));
    }
    add_rule(rules, f, t, 128, 256, rs);
    assert(rule_model(rules@[134]) == rule_at(134));
    let f = vec!['だ', 'ら'];
    let t = vec![];
    let rs = vec![Reason::Tara];
    proof {
        let e = rule_at(135);
        assert(f@ =~= e.from);
        assert(t@ =~= e.to);
        assert(rs@ =~= e.reasons);
        assert(rule_ok(e));
    }
    add_rule(rules, f, t, 128, 512, rs);
    assert(rule_model(rules@[135]) == rule_at(135));
}

fn add_rules_from_136(rules: &mut Vec<DeinflectionRule>)
    requires
        old(rules)@.len() == 136,
        forall|j: int| 0 <= j < 136 ==> rule_model(#[trigger] old(rules)@[j]) == rule_at(j) && rule_ok(rule_at(j)),
    ensures
        final(rules)@.len() == 144,
        forall|j: int| 0 <= j < 144 ==> rule_model(#[trigger] final(rules)@[j]) == rule_at(j) && rule_ok(rule_at(j)),
{
    let f = vec!['た', 'り'];
    let t = vec![];
    let rs = vec![Reason::Tari];
    proof {
        let e = rule_at(136);
        assert(f@ =~= e.from);
        assert(t@ =~= e.to);
        assert(rs@ =~= e.reasons);
        assert(rule_ok(e));
    }
    add_rule(rules, f, t, 128, 256, rs);
    assert(rule_model(rules@[136]) == rule_at(136));
    let f = vec!['だ', 'り'];
    let t = vec![];
    let rs = vec![Reason::Tari];
    proof {
        let e = rule_at(137);
        assert(f@ =~= e.from);
        assert(t@ =~= e.to);
        assert(rs@ =~= e.reasons);
        assert(rule_ok(e));
    }
    add_rule(rules, f, t, 128, 512, rs);
    assert(rule_model(rules@[137]) == rule_at(137));
    let f = vec!['て', 'ば'];
    let t = vec!['つ'];
    let rs = vec![Reason::Ba];
    proof {
        let e = rule_at(138);
        assert(f@ =~= e.from);
        assert(t@ =~= e.to);
        assert(rs@ =~= e.reasons);
        assert(rule_ok(e));
    }
    add_rule(rules, f, t, 128, 2, rs);
    assert(rule_model(rules@[138]) == rule_at(138));
    let f = vec!['て', 'る'];
    let t = vec!['つ'];
    let rs = vec![Reason::Potential];
    proof {
        let e = rule_at(139);
        assert(f@ =~= e.from);
        assert(t@ =~= e.to);
        assert(rs@ =~= e.reasons);
        assert(rule_ok(e));
    }
    add_rule(rules, f, t, 1, 2, rs);
    assert(rule_model(rules@[139]) == rule_at(139));
    let f = vec!['て', 'る'];
    let t = vec![];
    let rs = vec![Reason::Continuous];
    proof {
        let e = rule_at(140);
        assert(f@ =~= e.from);
        assert(t@ =~= e.to);
        assert(rs@ =~= e.reasons);
        assert(rule_ok(e));
    }
    add_rule(rules, f, t, 1, 256, rs);
    assert(rule_model(rules@[140]) == rule_at(140));
    let f = vec!['で', 'る'];
    let t = vec![];
    let rs = vec![Reason::Continuous];
    proof {
        let e = rule_at(141);
        assert(f@ =~= e.from);
        assert(t@ =~= e.to);
        assert(rs@ =~= e.reasons);
        assert(rule_ok(e));
    }
    add_rule(rules, f, t, 1, 512, rs);
    assert(rule_model(rules@[141]) == rule_at(141));
    let f = vec!['と', 'う'];
    let t = vec!['つ'];
    let rs = vec![Reason::Volitional];
    proof {
        let e = rule_at(142);
        assert(f@ =~= e.from);
        assert(t@ =~= e.to);
        assert(rs@ =~= e.reasons);
        assert(rule_ok(e));
    }
    add_rule(rules, f, t, 128, 2, rs);
    assert(rule_model(rules@[142]) == rule_at(142));
    let f = vec!['と', 'く'];
    let t = vec![];
    let rs = vec![Reason::Toku];
    proof {
        let e = rule_at(143);
        assert(f@ =~= e.from);
        assert(t@ =~= e.to);
        assert(rs@ =~= e.reasons);
        assert(rule_ok(e));
    }
    add_rule(rules, f, t, 2, 256, rs);
    assert(rule_model(rules@[143]) == rule_at(143));
}

fn add_rules_from_144(rules: &mut Vec<DeinflectionRule>)
    requires
        old(rules)@.len() == 144,
        forall|j: int| 0 <= j < 144 ==> rule_model(#[trigger] old(rules)@[j]) == rule_at(j) && rule_ok(rule_at(j)),
    ensures
        final(rules)@.len() == 152,
        forall|j: int| 0 <= j < 152 ==> rule_model(#[trigger] final(rules)@[j]) == rule_at(j) && rule_ok(rule_at(j)),
{
    let f = vec!['と', 'る'];
    let t = vec![];
    let rs = vec![Reason::HumbleOrKansaiDialect, Reason::Continuous];
    proof {
        let e = rule_at(144);
        assert(f@ =~= e.from);
        assert(t@ =~= e.to);
        assert(rs@ =~= e.reasons);
        assert(rule_ok(e));
    }
    add_rule(rules, f, t, 2, 256, rs);
    assert(rule_model(rules@[144]) == rule_at(144));
    let f = vec!['ど', 'く'];
    let t = vec![];
    let rs = vec![Reason::Toku];
    proof {
        let e = rule_at(145);
        assert(f@ =~= e.from);
        assert(t@ =~= e.to);
        assert(rs@ =~= e.reasons);
        assert(rule_ok(e));
    }
    add_rule(rules, f, t, 2, 512, rs);
    assert(rule_model(rules@[145]) == rule_at(145));
    let f = vec!['ど', 'る'];
    let t = vec![];
    let rs = vec![Reason::HumbleOrKansaiDialect, Reason::Continuous];
    proof {
        let e = rule_at(146);
        assert(f@ =~= e.from);
        assert(t@ =~= e.to);
        assert(rs@ =~= e.reasons);
        assert(rule_ok(e));
    }
    add_rule(rules, f, t, 2, 512, rs);
    assert(rule_model(rules@[146]) == rule_at(146));
    let f = vec!['な', 'い'];
    let t = vec![];
    let rs = vec![Reason::Negative];
    proof {
        let e = rule_at(147);
        assert(f@ =~= e.from);
        assert(t@ =~= e.to);
        assert(rs@ =~= e.reasons);
        assert(rule_ok(e));
    }
    add_rule(rules, f, t, 4, 2048, rs);
    assert(rule_model(rules@[147]) == rule_at(147));
    let f = vec!['ね', 'ば'];
    let t = vec!['ぬ'];
    let rs = vec![Reason::Ba];
    proof {
        let e = rule_at(148);
        assert(f@ =~= e.from);
        assert(t@ =~= e.to);
        assert(rs@ =~= e.reasons);
        assert(rule_ok(e));
    }
    add_rule(rules, f, t, 128, 2, rs);
    assert(rule_model(rules@[148]) == rule_at(148));
    let f = vec!['ね', 'る'];
    let t = vec!['ぬ'];
    let rs = vec![Reason::Potential];
    proof {
        let e = rule_at(149);
        assert(f@ =~= e.from);
        assert(t@ =~= e.to);
        assert(rs@ =~= e.reasons);
        assert(rule_ok(e));
    }
    add_rule(rules, f, t, 1, 2, rs);
    assert(rule_model(rules@[149]) == rule_at(149));
    let f = vec!['の', 'う'];
    let t = vec!['ぬ'];
    let rs = vec![Reason::Volitional];
    proof {
        let e = rule_at(150);
        assert(f@ =~= e.from);
        assert(t@ =~= e.to);
        assert(rs@ =~= e.reasons);
        assert(rule_ok(e));
    }
    add_rule(rules, f, t, 128, 2, rs);
    assert(rule_model(rules@[150]) == rule_at(150));
    let f = vec!['べ', 'ば'];
    let t = vec!['ぶ'];
    let rs = vec![Reason::Ba];
    proof {
        let e = rule_at(151);
        assert(f@ =~= e.from);
        assert(t@ =~= e.to);
        assert(rs@ =~= e.reasons);
        assert(rule_ok(e));
    }
    add_rule(rules, f, t, 128, 2, rs);
    assert(rule_model(rules@[151]) == rule_at(151));
}

fn add_rules_from_152(rules: &mut Vec<DeinflectionRule>)
    requires
        old(rules)@.len() == 152,
        forall|j: int| 0 <= j < 152 ==> rule_model(#[trigger] old(rules)@[j]) == rule_at(j) && rule_ok(rule_at(j)),
    ensures
        final(rules)@.len() == 160,
        forall|j: int| 0 <= j < 160 ==> rule_model(#[trigger] final(rules)@[j]) == rule_at(j) && rule_ok(rule_at(j)),
{
    let f = vec!['べ', 'る'];
    let t = vec!['ぶ'];
    let rs = vec![Reason::Potential];
    proof {
        let e = rule_at(152);
        assert(f@ =~= e.from);
        assert(t@ =~= e.to);
        assert(rs@ =~= e.reasons);
        assert(rule_ok(e));
    }
    add_rule(rules, f, t, 1, 2, rs);
    assert(rule_model(rules@[152]) == rule_at(152));
    let f = vec!['ぼ', 'う'];
    let t = vec!['ぶ'];
    let rs = vec![Reason::Volitional];
    proof {
        let e = rule_at(153);
        assert(f@ =~= e.from);
        assert(t@ =~= e.to);
        assert(rs@ =~= e.reasons);
        assert(rule_ok(e));
    }
    add_rule(rules, f, t, 128, 2, rs);
    assert(rule_model(rules@[153]) == rule_at(153));
    let f = vec!['ま', 'す'];
    let t = vec![];
    let rs = vec![Reason::Polite];
    proof {
        let e = rule_at(154);
        assert(f@ =~= e.from);
        assert(t@ =~= e.to);
        assert(rs@ =~= e.reasons);
        assert(rule_ok(e));
    }
    add_rule(rules, f, t, 128, 1024, rs);
    assert(rule_model(rules@[154]) == rule_at(154));
    let f = vec!['ま', 'せ'];
    let t = vec![];
    let rs = vec![Reason::Polite, Reason::Imperative];
    proof {
        let e = rule_at(155);
        assert(f@ =~= e.from);
        assert(t@ =~= e.to);
        assert(rs@ =~= e.reasons);
        assert(rule_ok(e));
    }
    add_rule(rules, f, t, 128, 1024, rs);
    assert(rule_model(rules@[155]) == rule_at(155));
    let f = vec!['め', 'ば'];
    let t = vec!['む'];
    let rs = vec![Reason::Ba];
    proof {
        let e = rule_at(156);
        assert(f@ =~= e.from);
        assert(t@ =~= e.to);
        assert(rs@ =~= e.reasons);
        assert(rule_ok(e));
    }
    add_rule(rules, f, t, 128, 2, rs);
    assert(rule_model(rules@[156]) == rule_at(156));
    let f = vec!['め', 'る'];
    let t = vec!['む'];
    let rs = vec![Reason::Potential];
    proof {
        let e = rule_at(157);
        assert(f@ =~= e.from);
        assert(t@ =~= e.to);
        assert(rs@ =~= e.reasons);
        assert(rule_ok(e));
    }
    add_rule(rules, f, t, 1, 2, rs);
    assert(rule_model(rules@[157]) == rule_at(157));
    let f = vec!['も', 'う'];
    let t = vec!['む'];
    let rs = vec![Reason::Volitional];
    proof {
        let e = rule_at(158);
        assert(f@ =~= e.from);
        assert(t@ =~= e.to);
        assert(rs@ =~= e.reasons);
        assert(rule_ok(e));
    }
    add_rule(rules, f, t, 128, 2, rs);
    assert(rule_model(rules@[158]) == rule_at(158));
    let f = vec!['よ', 'う'];
    let t = vec!['る'];
    let rs = vec![Reason::Volitional];
    proof {
        let e = rule_at(159);
        assert(f@ =~= e.from);
        assert(t@ =~= e.to);
        assert(rs@ =~= e.reasons);
        assert(rule_ok(e));
    }
    add_rule(rules, f, t, 128, 9, rs);
    assert(rule_model(rules@[159]) == rule_at(159));
}

fn add_rules_from_160(rules: &mut Vec<DeinflectionRule>)
    requires
        old(rules)@.len() == 160,
        forall|j: int| 0 <= j < 160 ==> rule_model(#[trigger] old(rules)@[j]) == rule_at(j) && rule_ok(rule_at(j)),
    ensures
        final(rules)@.len() == 168,
        forall|j: int| 0 <= j < 168 ==> rule_model(#[trigger] final(rules)@[j]) == rule_at(j) && rule_ok(rule_at(j)),
{
    let f = vec!['れ', 'ば'];
    let t = vec!['る'];
    let rs = vec![Reason::Ba];
    proof {
        let e = rule_at(160);
        assert(f@ =~= e.from);
        assert(t@ =~= e.to);
        assert(rs@ =~= e.reasons);
        assert(rule_ok(e));
    }
    add_rule(rules, f, t, 128, 27, rs);
    assert(rule_model(rules@[160]) == rule_at(160));
    let f = vec!['れ', 'る'];
    let t = vec!['る'];
    let rs = vec![Reason::Potential];
    proof {
        let e = rule_at(161);
        assert(f@ =~= e.from);
        assert(t@ =~= e.to);
        assert(rs@ =~= e.reasons);
        assert(rule_ok(e));
    }
    add_rule(rules, f, t, 1, 3, rs);
    assert(rule_model(rules@[161]) == rule_at(161));
    let f = vec!['れ', 'る'];
    let t = vec![];
    let rs = vec![Reason::Passive];
    proof {
        let e = rule_at(162);
        assert(f@ =~= e.from);
        assert(t@ =~= e.to);
        assert(rs@ =~= e.reasons);
        assert(rule_ok(e));
    }
    add_rule(rules, f, t, 1, 2048, rs);
    assert(rule_model(rules@[162]) == rule_at(162));
    let f = vec!['ろ', 'う'];
    let t = vec!['る'];
    let rs = vec![Reason::Volitional];
    proof {
        let e = rule_at(163);
        assert(f@ =~= e.from);
        assert(t@ =~= e.to);
        assert(rs@ =~= e.reasons);
        assert(rule_ok(e));
    }
    add_rule(rules, f, t, 128, 2, rs);
    assert(rule_model(rules@[163]) == rule_at(163));
    let f = vec!['い', 'っ'];
    let t = vec!['い', 'く'];
    let rs = vec![];
    proof {
        let e = rule_at(164);
        assert(f@ =~= e.from);
        assert(t@ =~= e.to);
        assert(rs@ =~= e.reasons);
        assert(rule_ok(e));
    }
    add_rule(rules, f, t, 256, 2, rs);
    assert(rule_model(rules@[164]) == rule_at(164));
    let f = vec!['お', 'う'];
    let t = vec!['お', 'う'];
    let rs = vec![];
    proof {
        let e = rule_at(165);
        assert(f@ =~= e.from);
        assert(t@ =~= e.to);
        assert(rs@ =~= e.reasons);
        assert(rule_ok(e));
    }
    add_rule(rules, f, t, 256, 2, rs);
    assert(rule_model(rules@[165]) == rule_at(165));
    let f = vec!['こ', 'う'];
    let t = vec!['こ', 'う'];
    let rs = vec![];
    proof {
        let e = rule_at(166);
        assert(f@ =~= e.from);
        assert(t@ =~= e.to);
        assert(rs@ =~= e.reasons);
        assert(rule_ok(e));
    }
    add_rule(rules, f, t, 256, 2, rs);
    assert(rule_model(rules@[166]) == rule_at(166));
    let f = vec!['そ', 'う'];
    let t = vec!['そ', 'う'];
    let rs = vec![];
    proof {
        let e = rule_at(167);
        assert(f@ =~= e.from);
        assert(t@ =~= e.to);
        assert(rs@ =~= e.reasons);
        assert(rule_ok(e));
    }
    add_rule(rules, f, t, 256, 2, rs);
    assert(rule_model(rules@[167]) == rule_at(167));
}

fn add_rules_from_168(rules: &mut Vec<DeinflectionRule>)
    requires
        old(rules)@.len() == 168,
        forall|j: int| 0 <= j < 168 ==> rule_model(#[trigger] old(rules)@[j]) == rule_at(j) && rule_ok(rule_at(j)),
    ensures
        final(rules)@.len() == 176,
        forall|j: int| 0 <= j < 176 ==> rule_model(#[trigger] final(rules)@[j]) == rule_at(j) && rule_ok(rule_at(j)),
{
    let f = vec!['と', 'う'];
    let t = vec!['と', 'う'];
    let rs = vec![];
    proof {
        let e = rule_at(168);
        assert(f@ =~= e.from);
        assert(t@ =~= e.to);
        assert(rs@ =~= e.reasons);
        assert(rule_ok(e));
    }
    add_rule(rules, f, t, 256, 2, rs);
    assert(rule_model(rules@[168]) == rule_at(168));
    let f = vec!['行', 'っ'];
    let t = vec!['行', 'く'];
    let rs = vec![];
    proof {
        let e = rule_at(169);
        assert(f@ =~= e.from);
        assert(t@ =~= e.to);
        assert(rs@ =~= e.reasons);
        assert(rule_ok(e));
    }
    add_rule(rules, f, t, 256, 2, rs);
    assert(rule_model(rules@[169]) == rule_at(169));
    let f = vec!['逝', 'っ'];
    let t = vec!['逝', 'く'];
    let rs = vec![];
    proof {
        let e = rule_at(170);
        assert(f@ =~= e.from);
        assert(t@ =~= e.to);
        assert(rs@ =~= e.reasons);
        assert(rule_ok(e));
    }
    add_rule(rules, f, t, 256, 2, rs);
    assert(rule_model(rules@[170]) == rule_at(170));
    let f = vec!['往', 'っ'];
    let t = vec!['往', 'く'];
    let rs = vec![];
    proof {
        let e = rule_at(171);
        assert(f@ =~= e.from);
        assert(t@ =~= e.to);
        assert(rs@ =~= e.reasons);
        assert(rule_ok(e));
    }
    add_rule(rules, f, t, 256, 2, rs);
    assert(rule_model(rules@[171]) == rule_at(171));
    let f = vec!['請', 'う'];
    let t = vec!['請', 'う'];
    let rs = vec![];
    proof {
        let e = rule_at(172);
        assert(f@ =~= e.from);
        assert(t@ =~= e.to);
        assert(rs@ =~= e.reasons);
        assert(rule_ok(e));
    }
    add_rule(rules, f, t, 256, 2, rs);
    assert(rule_model(rules@[172]) == rule_at(172));
    let f = vec!['乞', 'う'];
    let t = vec!['乞', 'う'];
    let rs = vec![];
    proof {
        let e = rule_at(173);
        assert(f@ =~= e.from);
        assert(t@ =~= e.to);
        assert(rs@ =~= e.reasons);
        assert(rule_ok(e));
    }
    add_rule(rules, f, t, 256, 2, rs);
    assert(rule_model(rules@[173]) == rule_at(173));
    let f = vec!['恋', 'う'];
    let t = vec!['恋', 'う'];
    let rs = vec![];
    proof {
        let e = rule_at(174);
        assert(f@ =~= e.from);
        assert(t@ =~= e.to);
        assert(rs@ =~= e.reasons);
        assert(rule_ok(e));
    }
    add_rule(rules, f, t, 256, 2, rs);
    assert(rule_model(rules@[174]) == rule_at(174));
    let f = vec!['問', 'う'];
    let t = vec!['問', 'う'];
    let rs = vec![];
    proof {
        let e = rule_at(175);
        assert(f@ =~= e.from);
        assert(t@ =~= e.to);
        assert(rs@ =~= e.reasons);
        assert(rule_ok(e));
    }
    add_rule(rules, f, t, 256, 2, rs);
    assert(rule_model(rules@[175]) == rule_at(175));
}

fn add_rules_from_176(rules: &mut Vec<DeinflectionRule>)
    requires
        old(rules)@.len() == 176,
        forall|j: int| 0 <= j < 176 ==> rule_model(#[trigger] old(rules)@[j]) == rule_at(j) && rule_ok(rule_at(j)),
    ensures
        final(rules)@.len() == 184,
        forall|j: int| 0 <= j < 184 ==> rule_model(#[trigger] final(rules)@[j]) == rule_at(j) && rule_ok(rule_at(j)),
{
    let f = vec!['負', 'う'];
    let t = vec!['負', 'う'];
    let rs = vec![];
    proof {
        let e = rule_at(176);
        assert(f@ =~= e.from);
        assert(t@ =~= e.to);
        assert(rs@ =~= e.reasons);
        assert(rule_ok(e));
    }
    add_rule(rules, f, t, 256, 2, rs);
    assert(rule_model(rules@[176]) == rule_at(176));
    let f = vec!['沿', 'う'];
    let t = vec!['沿', 'う'];
    let rs = vec![];
    proof {
        let e = rule_at(177);
        assert(f@ =~= e.from);
        assert(t@ =~= e.to);
        assert(rs@ =~= e.reasons);
        assert(rule_ok(e));
    }
    add_rule(rules, f, t, 256, 2, rs);
    assert(rule_model(rules@[177]) == rule_at(177));
    let f = vec!['添', 'う'];
    let t = vec!['添', 'う'];
    let rs = vec![];
    proof {
        let e = rule_at(178);
        assert(f@ =~= e.from);
        assert(t@ =~= e.to);
        assert(rs@ =~= e.reasons);
        assert(rule_ok(e));
    }
    add_rule(rules, f, t, 256, 2, rs);
    assert(rule_model(rules@[178]) == rule_at(178));
    let f = vec!['副', 'う'];
    let t = vec!['副', 'う'];
    let rs = vec![];
    proof {
        let e = rule_at(179);
        assert(f@ =~= e.from);
        assert(t@ =~= e.to);
        assert(rs@ =~= e.reasons);
        assert(rule_ok(e));
    }
    add_rule(rules, f, t, 256, 2, rs);
    assert(rule_model(rules@[179]) == rule_at(179));
    let f = vec!['厭', 'う'];
    let t = vec!['厭', 'う'];
    let rs = vec![];
    proof {
        let e = rule_at(180);
        assert(f@ =~= e.from);
        assert(t@ =~= e.to);
        assert(rs@ =~= e.reasons);
        assert(rule_ok(e));
    }
    add_rule(rules, f, t, 256, 2, rs);
    assert(rule_model(rules@[180]) == rule_at(180));
    let f = vec!['給', 'う'];
    let t = vec!['給', 'う'];
    let rs = vec![];
    proof {
        let e = rule_at(181);
        assert(f@ =~= e.from);
        assert(t@ =~= e.to);
        assert(rs@ =~= e.reasons);
        assert(rule_ok(e));
    }
    add_rule(rules, f, t, 256, 2, rs);
    assert(rule_model(rules@[181]) == rule_at(181));
    let f = vec!['賜', 'う'];
    let t = vec!['賜', 'う'];
    let rs = vec![];
    proof {
        let e = rule_at(182);
        assert(f@ =~= e.from);
        assert(t@ =~= e.to);
        assert(rs@ =~= e.reasons);
        assert(rule_ok(e));
    }
    add_rule(rules, f, t, 256, 2, rs);
    assert(rule_model(rules@[182]) == rule_at(182));
    let f = vec!['宣', 'う'];
    let t = vec!['宣', 'う'];
    let rs = vec![];
    proof {
        let e = rule_at(183);
        assert(f@ =~= e.from);
        assert(t@ =~= e.to);
        assert(rs@ =~= e.reasons);
        assert(rule_ok(e));
    }
    add_rule(rules, f, t, 256, 2, rs);
    assert(rule_model(rules@[183]) == rule_at(183));
}

fn add_rules_from_184(rules: &mut Vec<DeinflectionRule>)
    requires
        old(rules)@.len() == 184,
        forall|j: int| 0 <= j < 184 ==> rule_model(#[trigger] old(rules)@[j]) == rule_at(j) && rule_ok(rule_at(j)),
    ensures
        final(rules)@.len() == 192,
        forall|j: int| 0 <= j < 192 ==> rule_model(#[trigger] final(rules)@[j]) == rule_at(j) && rule_ok(rule_at(j)),
{
    let f = vec!['曰', 'う'];
    let t = vec!['曰', 'う'];
    let rs = vec![];
    proof {
        let e = rule_at(184);
        assert(f@ =~= e.from);
        assert(t@ =~= e.to);
        assert(rs@ =~= e.reasons);
        assert(rule_ok(e));
    }
    add_rule(rules, f, t, 256, 2, rs);
    assert(rule_model(rules@[184]) == rule_at(184));
    let f = vec!['い'];
    let t = vec!['う'];
    let rs = vec![Reason::MasuStem];
    proof {
        let e = rule_at(185);
        assert(f@ =~= e.from);
        assert(t@ =~= e.to);
        assert(rs@ =~= e.reasons);
        assert(rule_ok(e));
    }
    add_rule(rules, f, t, 1024, 2, rs);
    assert(rule_model(rules@[185]) == rule_at(185));
    let f = vec!['い'];
    let t = vec!['く'];
    let rs = vec![];
    proof {
        let e = rule_at(186);
        assert(f@ =~= e.from);
        assert(t@ =~= e.to);
        assert(rs@ =~= e.reasons);
        assert(rule_ok(e));
    }
    add_rule(rules, f, t, 256, 2, rs);
    assert(rule_model(rules@[186]) == rule_at(186));
    let f = vec!['い'];
    let t = vec!['ぐ'];
    let rs = vec![];
    proof {
        let e = rule_at(187);
        assert(f@ =~= e.from);
        assert(t@ =~= e.to);
        assert(rs@ =~= e.reasons);
        assert(rule_ok(e));
    }
    add_rule(rules, f, t, 512, 2, rs);
    assert(rule_model(rules@[187]) == rule_at(187));
    let f = vec!['い'];
    let t = vec!['る'];
    let rs = vec![Reason::Imperative];
    proof {
        let e = rule_at(188);
        assert(f@ =~= e.from);
        assert(t@ =~= e.to);
        assert(rs@ =~= e.reasons);
        assert(rule_ok(e));
    }
    add_rule(rules, f, t, 128, 8, rs);
    assert(rule_model(rules@[188]) == rule_at(188));
    let f = vec!['え'];
    let t = vec!['う'];
    let rs = vec![Reason::Imperative];
    proof {
        let e = rule_at(189);
        assert(f@ =~= e.from);
        assert(t@ =~= e.to);
        assert(rs@ =~= e.reasons);
        assert(rule_ok(e));
    }
    add_rule(rules, f, t, 128, 2, rs);
    assert(rule_model(rules@[189]) == rule_at(189));
    let f = vec!['か'];
    let t = vec!['く'];
    let rs = vec![];
    proof {
        let e = rule_at(190);
        assert(f@ =~= e.from);
        assert(t@ =~= e.to);
        assert(rs@ =~= e.reasons);
        assert(rule_ok(e));
    }
    add_rule(rules, f, t, 2048, 2, rs);
    assert(rule_model(rules@[190]) == rule_at(190));
    let f = vec!['が'];
    let t = vec!['ぐ'];
    let rs = vec![];
    proof {
        let e = rule_at(191);
        assert(f@ =~= e.from);
        assert(t@ =~= e.to);
        assert(rs@ =~= e.reasons);
        assert(rule_ok(e));
    }
    add_rule(rules, f, t, 2048, 2, rs);
    assert(rule_model(rules@[191]) == rule_at(191));
}

fn add_rules_from_192(rules: &mut Vec<DeinflectionRule>)
    requires
        old(rules)@.len() == 192,
        forall|j: int| 0 <= j < 192 ==> rule_model(#[trigger] old(rules)@[j]) == rule_at(j) && rule_ok(rule_at(j)),
    ensures
        final(rules)@.len() == 200,
        forall|j: int| 0 <= j < 200 ==> rule_model(#[trigger] final(rules)@[j]) == rule_at(j) && rule_ok(rule_at(j)),
{
    let f = vec!['き'];
    let t = vec!['い'];
    let rs = vec![Reason::Ki];
    proof {
        let e = rule_at(192);
        assert(f@ =~= e.from);
        assert(t@ =~= e.to);
        assert(rs@ =~= e.reasons);
        assert(rule_ok(e));
    }
    add_rule(rules, f, t, 128, 4, rs);
    assert(rule_model(rules@[192]) == rule_at(192));
    let f = vec!['き'];
    let t = vec!['く'];
    let rs = vec![Reason::MasuStem];
    proof {
        let e = rule_at(193);
        assert(f@ =~= e.from);
        assert(t@ =~= e.to);
        assert(rs@ =~= e.reasons);
        assert(rule_ok(e));
    }
    add_rule(rules, f, t, 1024, 2, rs);
    assert(rule_model(rules@[193]) == rule_at(193));
    let f = vec!['き'];
    let t = vec!['く', 'る'];
    let rs = vec![];
    proof {
        let e = rule_at(194);
        assert(f@ =~= e.from);
        assert(t@ =~= e.to);
        assert(rs@ =~= e.reasons);
        assert(rule_ok(e));
    }
    add_rule(rules, f, t, 256, 8, rs);
    assert(rule_model(rules@[194]) == rule_at(194));
    let f = vec!['き'];
    let t = vec!['く', 'る'];
    let rs = vec![Reason::MasuStem];
    proof {
        let e = rule_at(195);
        assert(f@ =~= e.from);
        assert(t@ =~= e.to);
        assert(rs@ =~= e.reasons);
        assert(rule_ok(e));
    }
    add_rule(rules, f, t, 1024, 8, rs);
    assert(rule_model(rules@[195]) == rule_at(195));
    let f = vec!['ぎ'];
    let t = vec!['ぐ'];
    let rs = vec![Reason::MasuStem];
    proof {
        let e = rule_at(196);
        assert(f@ =~= e.from);
        assert(t@ =~= e.to);
        assert(rs@ =~= e.reasons);
        assert(rule_ok(e));
    }
    add_rule(rules, f, t, 1024, 2, rs);
    assert(rule_model(rules@[196]) == rule_at(196));
    let f = vec!['く'];
    let t = vec!['い'];
    let rs = vec![Reason::Adv];
    proof {
        let e = rule_at(197);
        assert(f@ =~= e.from);
        assert(t@ =~= e.to);
        assert(rs@ =~= e.reasons);
        assert(rule_ok(e));
    }
    add_rule(rules, f, t, 128, 4, rs);
    assert(rule_model(rules@[197]) == rule_at(197));
    let f = vec!['け'];
    let t = vec!['く'];
    let rs = vec![Reason::Imperative];
    proof {
        let e = rule_at(198);
        assert(f@ =~= e.from);
        assert(t@ =~= e.to);
        assert(rs@ =~= e.reasons);
        assert(rule_ok(e));
    }
    add_rule(rules, f, t, 128, 2, rs);
    assert(rule_model(rules@[198]) == rule_at(198));
    let f = vec!['げ'];
    let t = vec!['ぐ'];
    let rs = vec![Reason::Imperative];
    proof {
        let e = rule_at(199);
        assert(f@ =~= e.from);
        assert(t@ =~= e.to);
        assert(rs@ =~= e.reasons);
        assert(rule_ok(e));
    }
    add_rule(rules, f, t, 128, 2, rs);
    assert(rule_model(rules@[199]) == rule_at(199));
}

fn add_rules_from_200(rules: &mut Vec<DeinflectionRule>)
    requires
        old(rules)@.len() == 200,
        forall|j: int| 0 <= j < 200 ==> rule_model(#[trigger] old(rules)@[j]) == rule_at(j) && rule_ok(rule_at(j)),
    ensures
        final(rules)@.len() == 208,
        forall|j: int| 0 <= j < 208 ==> rule_model(#[trigger] final(rules)@[j]) == rule_at(j) && rule_ok(rule_at(j)),
{
    let f = vec!['こ'];
    let t = vec!['く', 'る'];
    let rs = vec![];
    proof {
        let e = rule_at(200);
        assert(f@ =~= e.from);
        assert(t@ =~= e.to);
        assert(rs@ =~= e.reasons);
        assert(rule_ok(e));
    }
    add_rule(rules, f, t, 2048, 8, rs);
    assert(rule_model(rules@[200]) == rule_at(200));
    let f = vec!['さ'];
    let t = vec!['い'];
    let rs = vec![Reason::Noun];
    proof {
        let e = rule_at(201);
        assert(f@ =~= e.from);
        assert(t@ =~= e.to);
        assert(rs@ =~= e.reasons);
        assert(rule_ok(e));
    }
    add_rule(rules, f, t, 128, 4, rs);
    assert(rule_model(rules@[201]) == rule_at(201));
    let f = vec!['さ'];
    let t = vec!['す'];
    let rs = vec![];
    proof {
        let e = rule_at(202);
        assert(f@ =~= e.from);
        assert(t@ =~= e.to);
        assert(rs@ =~= e.reasons);
        assert(rule_ok(e));
    }
    add_rule(rules, f, t, 2048, 2, rs);
    assert(rule_model(rules@[202]) == rule_at(202));
    let f = vec!['し'];
    let t = vec!['す'];
    let rs = vec![Reason::MasuStem];
    proof {
        let e = rule_at(203);
        assert(f@ =~= e.from);
        assert(t@ =~= e.to);
        assert(rs@ =~= e.reasons);
        assert(rule_ok(e));
    }
    add_rule(rules, f, t, 1024, 2, rs);
    assert(rule_model(rules@[203]) == rule_at(203));
    let f = vec!['し'];
    let t = vec!['す', 'る'];
    let rs = vec![Reason::MasuStem];
    proof {
        let e = rule_at(204);
        assert(f@ =~= e.from);
        assert(t@ =~= e.to);
        assert(rs@ =~= e.reasons);
        assert(rule_ok(e));
    }
    add_rule(rules, f, t, 1024, 16, rs);
    assert(rule_model(rules@[204]) == rule_at(204));
    let f = vec!['し'];
    let t = vec!['す'];
    let rs = vec![];
    proof {
        let e = rule_at(205);
        assert(f@ =~= e.from);
        assert(t@ =~= e.to);
        assert(rs@ =~= e.reasons);
        assert(rule_ok(e));
    }
    add_rule(rules, f, t, 256, 2, rs);
    assert(rule_model(rules@[205]) == rule_at(205));
    let f = vec!['し'];
    let t = vec!['す', 'る'];
    let rs = vec![];
    proof {
        let e = rule_at(206);
        assert(f@ =~= e.from);
        assert(t@ =~= e.to);
        assert(rs@ =~= e.reasons);
        assert(rule_ok(e));
    }
    add_rule(rules, f, t, 256, 16, rs);
    assert(rule_model(rules@[206]) == rule_at(206));
    let f = vec!['ず'];
    let t = vec![];
    let rs = vec![Reason::Zu];
    proof {
        let e = rule_at(207);
        assert(f@ =~= e.from);
        assert(t@ =~= e.to);
        assert(rs@ =~= e.reasons);
        assert(rule_ok(e));
    }
    add_rule(rules, f, t, 128, 2048, rs);
    assert(rule_model(rules@[207]) == rule_at(207));
}

fn add_rules_from_208(rules: &mut Vec<DeinflectionRule>)
    requires
        old(rules)@.len() == 208,
        forall|j: int| 0 <= j < 208 ==> rule_model(#[trigger] old(rules)@[j]) == rule_at(j) && rule_ok(rule_at(j)),
    ensures
        final(rules)@.len() == 216,
        forall|j: int| 0 <= j < 216 ==> rule_model(#[trigger] final(rules)@[j]) == rule_at(j) && rule_ok(rule_at(j)),
{
    let f = vec!['せ'];
    let t = vec!['す'];
    let rs = vec![Reason::Imperative];
    proof {
        let e = rule_at(208);
        assert(f@ =~= e.from);
        assert(t@ =~= e.to);
        assert(rs@ =~= e.reasons);
        assert(rule_ok(e));
    }
    add_rule(rules, f, t, 128, 2, rs);
    assert(rule_model(rules@[208]) == rule_at(208));
    let f = vec!['せ'];
    let t = vec!['す', 'る'];
    let rs = vec![Reason::Irregular, Reason::Imperative];
    proof {
        let e = rule_at(209);
        assert(f@ =~= e.from);
        assert(t@ =~= e.to);
        assert(rs@ =~= e.reasons);
        assert(rule_ok(e));
    }
    add_rule(rules, f, t, 128, 32, rs);
    assert(rule_model(rules@[209]) == rule_at(209));
    let f = vec!['た'];
    let t = vec!['つ'];
    let rs = vec![];
    proof {
        let e = rule_at(210);
        assert(f@ =~= e.from);
        assert(t@ =~= e.to);
        assert(rs@ =~= e.reasons);
        assert(rule_ok(e));
    }
    add_rule(rules, f, t, 2048, 2, rs);
    assert(rule_model(rules@[210]) == rule_at(210));
    let f = vec!['た'];
    let t = vec![];
    let rs = vec![Reason::Past];
    proof {
        let e = rule_at(211);
        assert(f@ =~= e.from);
        assert(t@ =~= e.to);
        assert(rs@ =~= e.reasons);
        assert(rule_ok(e));
    }
    add_rule(rules, f, t, 128, 256, rs);
    assert(rule_model(rules@[211]) == rule_at(211));
    let f = vec!['だ'];
    let t = vec![];
    let rs = vec![Reason::Past];
    proof {
        let e = rule_at(212);
        assert(f@ =~= e.from);
        assert(t@ =~= e.to);
        assert(rs@ =~= e.reasons);
        assert(rule_ok(e));
    }
    add_rule(rules, f, t, 128, 512, rs);
    assert(rule_model(rules@[212]) == rule_at(212));
    let f = vec!['ち'];
    let t = vec!['つ'];
    let rs = vec![Reason::MasuStem];
    proof {
        let e = rule_at(213);
        assert(f@ =~= e.from);
        assert(t@ =~= e.to);
        assert(rs@ =~= e.reasons);
        assert(rule_ok(e));
    }
    add_rule(rules, f, t, 1024, 2, rs);
    assert(rule_model(rules@[213]) == rule_at(213));
    let f = vec!['っ'];
    let t = vec!['う'];
    let rs = vec![];
    proof {
        let e = rule_at(214);
        assert(f@ =~= e.from);
        assert(t@ =~= e.to);
        assert(rs@ =~= e.reasons);
        assert(rule_ok(e));
    }
    add_rule(rules, f, t, 256, 2, rs);
    assert(rule_model(rules@[214]) == rule_at(214));
    let f = vec!['っ'];
    let t = vec!['つ'];
    let rs = vec![];
    proof {
        let e = rule_at(215);
        assert(f@ =~= e.from);
        assert(t@ =~= e.to);
        assert(rs@ =~= e.reasons);
        assert(rule_ok(e));
    }
    add_rule(rules, f, t, 256, 2, rs);
    assert(rule_model(rules@[215]) == rule_at(215));
}

fn add_rules_from_216(rules: &mut Vec<DeinflectionRule>)
    requires
        old(rules)@.len() == 216,
        forall|j: int| 0 <= j < 216 ==> rule_model(#[trigger] old(rules)@[j]) == rule_at(j) && rule_ok(rule_at(j)),
    ensures
        final(rules)@.len() == 224,
        forall|j: int| 0 <= j < 224 ==> rule_model(#[trigger] final(rules)@[j]) == rule_at(j) && rule_ok(rule_at(j)),
{
    let f = vec!['っ'];
    let t = vec!['る'];
    let rs = vec![];
    proof {
        let e = rule_at(216);
        assert(f@ =~= e.from);
        assert(t@ =~= e.to);
        assert(rs@ =~= e.reasons);
        assert(rule_ok(e));
    }
    add_rule(rules, f, t, 256, 2, rs);
    assert(rule_model(rules@[216]) == rule_at(216));
    let f = vec!['て'];
    let t = vec![];
    let rs = vec![Reason::Te];
    proof {
        let e = rule_at(217);
        assert(f@ =~= e.from);
        assert(t@ =~= e.to);
        assert(rs@ =~= e.reasons);
        assert(rule_ok(e));
    }
    add_rule(rules, f, t, 128, 256, rs);
    assert(rule_model(rules@[217]) == rule_at(217));
    let f = vec!['て'];
    let t = vec!['つ'];
    let rs = vec![Reason::Imperative];
    proof {
        let e = rule_at(218);
        assert(f@ =~= e.from);
        assert(t@ =~= e.to);
        assert(rs@ =~= e.reasons);
        assert(rule_ok(e));
    }
    add_rule(rules, f, t, 128, 2, rs);
    assert(rule_model(rules@[218]) == rule_at(218));
    let f = vec!['で'];
    let t = vec![];
    let rs = vec![Reason::Te];
    proof {
        let e = rule_at(219);
        assert(f@ =~= e.from);
        assert(t@ =~= e.to);
        assert(rs@ =~= e.reasons);
        assert(rule_ok(e));
    }
    add_rule(rules, f, t, 128, 512, rs);
    assert(rule_model(rules@[219]) == rule_at(219));
    let f = vec!['な'];
    let t = vec!['ぬ'];
    let rs = vec![];
    proof {
        let e = rule_at(220);
        assert(f@ =~= e.from);
        assert(t@ =~= e.to);
        assert(rs@ =~= e.reasons);
        assert(rule_ok(e));
    }
    add_rule(rules, f, t, 2048, 2, rs);
    assert(rule_model(rules@[220]) == rule_at(220));
    let f = vec!['な'];
    let t = vec![];
    let rs = vec![Reason::ImperativeNegative];
    proof {
        let e = rule_at(221);
        assert(f@ =~= e.from);
        assert(t@ =~= e.to);
        assert(rs@ =~= e.reasons);
        assert(rule_ok(e));
    }
    add_rule(rules, f, t, 128, 27, rs);
    assert(rule_model(rules@[221]) == rule_at(221));
    let f = vec!['に'];
    let t = vec!['ぬ'];
    let rs = vec![Reason::MasuStem];
    proof {
        let e = rule_at(222);
        assert(f@ =~= e.from);
        assert(t@ =~= e.to);
        assert(rs@ =~= e.reasons);
        assert(rule_ok(e));
    }
    add_rule(rules, f, t, 1024, 2, rs);
    assert(rule_model(rules@[222]) == rule_at(222));
    let f = vec!['ぬ'];
    let t = vec![];
    let rs = vec![Reason::Negative];
    proof {
        let e = rule_at(223);
        assert(f@ =~= e.from);
        assert(t@ =~= e.to);
        assert(rs@ =~= e.reasons);
        assert(rule_ok(e));
    }
    add_rule(rules, f, t, 128, 2048, rs);
    assert(rule_model(rules@[223]) == rule_at(223));
}

fn add_rules_from_224(rules: &mut Vec<DeinflectionRule>)
    requires
        old(rules)@.len() == 224,
        forall|j: int| 0 <= j < 224 ==> rule_model(#[trigger] old(rules)@[j]) == rule_at(j) && rule_ok(rule_at(j)),
    ensures
        final(rules)@.len() == 232,
        forall|j: int| 0 <= j < 232 ==> rule_model(#[trigger] final(rules)@[j]) == rule_at(j) && rule_ok(rule_at(j)),
{
    let f = vec!['ね'];
    let t = vec!['ぬ'];
    let rs = vec![Reason::Imperative];
    proof {
        let e = rule_at(224);
        assert(f@ =~= e.from);
        assert(t@ =~= e.to);
        assert(rs@ =~= e.reasons);
        assert(rule_ok(e));
    }
    add_rule(rules, f, t, 128, 2, rs);
    assert(rule_model(rules@[224]) == rule_at(224));
    let f = vec!['ば'];
    let t = vec!['ぶ'];
    let rs = vec![];
    proof {
        let e = rule_at(225);
        assert(f@ =~= e.from);
        assert(t@ =~= e.to);
        assert(rs@ =~= e.reasons);
        assert(rule_ok(e));
    }
    add_rule(rules, f, t, 2048, 2, rs);
    assert(rule_model(rules@[225]) == rule_at(225));
    let f = vec!['び'];
    let t = vec!['ぶ'];
    let rs = vec![Reason::MasuStem];
    proof {
        let e = rule_at(226);
        assert(f@ =~= e.from);
        assert(t@ =~= e.to);
        assert(rs@ =~= e.reasons);
        assert(rule_ok(e));
    }
    add_rule(rules, f, t, 1024, 2, rs);
    assert(rule_model(rules@[226]) == rule_at(226));
    let f = vec!['べ'];
    let t = vec!['ぶ'];
    let rs = vec![Reason::Imperative];
    proof {
        let e = rule_at(227);
        assert(f@ =~= e.from);
        assert(t@ =~= e.to);
        assert(rs@ =~= e.reasons);
        assert(rule_ok(e));
    }
    add_rule(rules, f, t, 128, 2, rs);
    assert(rule_model(rules@[227]) == rule_at(227));
    let f = vec!['ま'];
    let t = vec!['む'];
    let rs = vec![];
    proof {
        let e = rule_at(228);
        assert(f@ =~= e.from);
        assert(t@ =~= e.to);
        assert(rs@ =~= e.reasons);
        assert(rule_ok(e));
    }
    add_rule(rules, f, t, 2048, 2, rs);
    assert(rule_model(rules@[228]) == rule_at(228));
    let f = vec!['み'];
    let t = vec!['む'];
    let rs = vec![Reason::MasuStem];
    proof {
        let e = rule_at(229);
        assert(f@ =~= e.from);
        assert(t@ =~= e.to);
        assert(rs@ =~= e.reasons);
        assert(rule_ok(e));
    }
    add_rule(rules, f, t, 1024, 2, rs);
    assert(rule_model(rules@[229]) == rule_at(229));
    let f = vec!['め'];
    let t = vec!['む'];
    let rs = vec![Reason::Imperative];
    proof {
        let e = rule_at(230);
        assert(f@ =~= e.from);
        assert(t@ =~= e.to);
        assert(rs@ =~= e.reasons);
        assert(rule_ok(e));
    }
    add_rule(rules, f, t, 128, 2, rs);
    assert(rule_model(rules@[230]) == rule_at(230));
    let f = vec!['よ'];
    let t = vec!['る'];
    let rs = vec![Reason::Imperative];
    proof {
        let e = rule_at(231);
        assert(f@ =~= e.from);
        assert(t@ =~= e.to);
        assert(rs@ =~= e.reasons);
        assert(rule_ok(e));
    }
    add_rule(rules, f, t, 128, 1, rs);
    assert(rule_model(rules@[231]) == rule_at(231));
}

fn add_rules_from_232(rules: &mut Vec<DeinflectionRule>)
    requires
        old(rules)@.len() == 232,
        forall|j: int| 0 <= j < 232 ==> rule_model(#[trigger] old(rules)@[j]) == rule_at(j) && rule_ok(rule_at(j)),
    ensures
        final(rules)@.len() == 240,
        forall|j: int| 0 <= j < 240 ==> rule_model(#[trigger] final(rules)@[j]) == rule_at(j) && rule_ok(rule_at(j)),
{
    let f = vec!['ら'];
    let t = vec!['る'];
    let rs = vec![];
    proof {
        let e = rule_at(232);
        assert(f@ =~= e.from);
        assert(t@ =~= e.to);
        assert(rs@ =~= e.reasons);
        assert(rule_ok(e));
    }
    add_rule(rules, f, t, 2048, 2, rs);
    assert(rule_model(rules@[232]) == rule_at(232));
    let f = vec!['り'];
    let t = vec!['る'];
    let rs = vec![Reason::MasuStem];
    proof {
        let e = rule_at(233);
        assert(f@ =~= e.from);
        assert(t@ =~= e.to);
        assert(rs@ =~= e.reasons);
        assert(rule_ok(e));
    }
    add_rule(rules, f, t, 1024, 2, rs);
    assert(rule_model(rules@[233]) == rule_at(233));
    let f = vec!['れ'];
    let t = vec!['る'];
    let rs = vec![Reason::Imperative];
    proof {
        let e = rule_at(234);
        assert(f@ =~= e.from);
        assert(t@ =~= e.to);
        assert(rs@ =~= e.reasons);
        assert(rule_ok(e));
    }
    add_rule(rules, f, t, 128, 2, rs);
    assert(rule_model(rules@[234]) == rule_at(234));
    let f = vec!['ろ'];
    let t = vec!['る'];
    let rs = vec![Reason::Imperative];
    proof {
        let e = rule_at(235);
        assert(f@ =~= e.from);
        assert(t@ =~= e.to);
        assert(rs@ =~= e.reasons);
        assert(rule_ok(e));
    }
    add_rule(rules, f, t, 128, 1, rs);
    assert(rule_model(rules@[235]) == rule_at(235));
    let f = vec!['わ'];
    let t = vec!['う'];
    let rs = vec![];
    proof {
        let e = rule_at(236);
        assert(f@ =~= e.from);
        assert(t@ =~= e.to);
        assert(rs@ =~= e.reasons);
        assert(rule_ok(e));
    }
    add_rule(rules, f, t, 2048, 2, rs);
    assert(rule_model(rules@[236]) == rule_at(236));
    let f = vec!['ん'];
    let t = vec!['ぬ'];
    let rs = vec![];
    proof {
        let e = rule_at(237);
        assert(f@ =~= e.from);
        assert(t@ =~= e.to);
        assert(rs@ =~= e.reasons);
        assert(rule_ok(e));
    }
    add_rule(rules, f, t, 512, 2, rs);
    assert(rule_model(rules@[237]) == rule_at(237));
    let f = vec!['ん'];
    let t = vec!['ぶ'];
    let rs = vec![];
    proof {
        let e = rule_at(238);
        assert(f@ =~= e.from);
        assert(t@ =~= e.to);
        assert(rs@ =~= e.reasons);
        assert(rule_ok(e));
    }
    add_rule(rules, f, t, 512, 2, rs);
    assert(rule_model(rules@[238]) == rule_at(238));
    let f = vec!['ん'];
    let t = vec!['む'];
    let rs = vec![];
    proof {
        let e = rule_at(239);
        assert(f@ =~= e.from);
        assert(t@ =~= e.to);
        assert(rs@ =~= e.reasons);
        assert(rule_ok(e));
    }
    add_rule(rules, f, t, 512, 2, rs);
    assert(rule_model(rules@[239]) == rule_at(239));
}

fn add_rules_from_240(rules: &mut Vec<DeinflectionRule>)
    requires
        old(rules)@.len() == 240,
        forall|j: int| 0 <= j < 240 ==> rule_model(#[trigger] old(rules)@[j]) == rule_at(j) && rule_ok(rule_at(j)),
    ensures
        final(rules)@.len() == 241,
        forall|j: int| 0 <= j < 241 ==> rule_model(#[trigger] final(rules)@[j]) == rule_at(j) && rule_ok(rule_at(j)),
{
    let f = vec!['ん'];
    let t = vec![];
    let rs = vec![Reason::Negative];
    proof {
        let e = rule_at(240);
        assert(f@ =~= e.from);
        assert(t@ =~= e.to);
        assert(rs@ =~= e.reasons);
        assert(rule_ok(e));
    }
    add_rule(rules, f, t, 128, 2048, rs);
    assert(rule_model(rules@[240]) == rule_at(240));
}

/// The rule table as executable rules, in table order.
pub fn rule_data() -> (rules: Vec<DeinflectionRule>)
    ensures
        rules@.len() == rule_table_len(),
        forall|j: int| 0 <= j < rules@.len() ==> rule_model(#[trigger] rules@[j]) == rule_at(j) && rule_ok(rule_at(j)),
{
    let mut rules: Vec<DeinflectionRule> = Vec::new();
    add_rules_from_0(&mut rules);
    add_rules_from_8(&mut rules);
    add_rules_from_16(&mut rules);
    add_rules_from_24(&mut rules);
    add_rules_from_32(&mut rules);
    add_rules_from_40(&mut rules);
    add_rules_from_48(&mut rules);
    add_rules_from_56(&mut rules);
    add_rules_from_64(&mut rules);
    add_rules_from_72(&mut rules);
    add_rules_from_80(&mut rules);
    add_rules_from_88(&mut rules);
    add_rules_from_96(&mut rules);
    add_rules_from_104(&mut rules);
    add_rules_from_112(&mut rules);
    add_rules_from_120(&mut rules);
    add_rules_from_128(&mut rules);
    add_rules_from_136(&mut rules);
    add_rules_from_144(&mut rules);
    add_rules_from_152(&mut rules);
    add_rules_from_160(&mut rules);
    add_rules_from_168(&mut rules);
    add_rules_from_176(&mut rules);
    add_rules_from_184(&mut rules);
    add_rules_from_192(&mut rules);
    add_rules_from_200(&mut rules);
    add_rules_from_208(&mut rules);
    add_rules_from_216(&mut rules);
    add_rules_from_224(&mut rules);
    add_rules_from_232(&mut rules);
    add_rules_from_240(&mut rules);
    rules
}

} // verus!
