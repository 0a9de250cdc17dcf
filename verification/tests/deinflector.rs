use jmdict_fast::deinflector::{CandidateWord, Deinflector, Reason, WordType};

#[test]
fn test_performs_deinflection() {
    let deinflector = Deinflector::new();
    let result = deinflector.deinflect("走ります");
    let match_candidate = result.iter().find(|candidate| candidate.word == "走る");
    assert_eq!(
        match_candidate,
        Some(&CandidateWord {
            word: "走る".to_string(),
            reason_chains: vec![vec![Reason::Polite]],
            word_type: WordType::GodanVerb.as_u32(),
        })
    );
}

#[test]
fn test_performs_deinflection_recursively() {
    let deinflector = Deinflector::new();
    let result = deinflector.deinflect("踊りたくなかった");
    let match_candidate = result.iter().find(|candidate| candidate.word == "踊る");
    assert_eq!(
        match_candidate,
        Some(&CandidateWord {
            word: "踊る".to_string(),
            reason_chains: vec![vec![Reason::Tai, Reason::Negative, Reason::Past]],
            word_type: WordType::GodanVerb.as_u32(),
        })
    );
}

#[test]
fn test_does_not_allow_duplicates_in_reason_chain() {
    let deinflector = Deinflector::new();
    let cases = vec![
        "見させさせる",   // causative < causative
        "見させてさせる", // causative < continuous < causative
        "見ていている",   // continuous < continuous
        "見てさせている", // continuous < causative < continuous
        "見とけとく",     // -te oku < potential < -te oku
    ];

    for inflected in cases {
        let result = deinflector.deinflect(inflected);
        let match_candidate = result.iter().find(|candidate| {
            candidate.word == "見る"
                && (candidate.word_type & WordType::IchidanVerb.as_u32()) != 0
        });
        assert!(
            match_candidate.is_none(),
            "Should not find '見る' for '{}'",
            inflected
        );
    }
}

#[test]
fn test_deinflects_kana_variations() {
    let deinflector = Deinflector::new();
    let cases = vec![
        (
            "走ります",
            "走る",
            vec![vec![Reason::Polite]],
            WordType::GodanVerb.as_u32(),
        ),
        (
            "走りまス",
            "走る",
            vec![vec![Reason::Polite]],
            WordType::GodanVerb.as_u32(),
        ),
        (
            "走りマス",
            "走る",
            vec![vec![Reason::Polite]],
            WordType::GodanVerb.as_u32(),
        ),
        (
            "走リマス",
            "走る",
            vec![vec![Reason::Polite]],
            WordType::GodanVerb.as_u32(),
        ),
        (
            "走リマす",
            "走る",
            vec![vec![Reason::Polite]],
            WordType::GodanVerb.as_u32(),
        ),
        (
            "走った",
            "走る",
            vec![vec![Reason::Past]],
            WordType::GodanVerb.as_u32(),
        ),
        (
            "走っタ",
            "走る",
            vec![vec![Reason::Past]],
            WordType::GodanVerb.as_u32(),
        ),
        (
            "走ッタ",
            "走る",
            vec![vec![Reason::Past]],
            WordType::GodanVerb.as_u32(),
        ),
        (
            "走ッた",
            "走る",
            vec![vec![Reason::Past]],
            WordType::GodanVerb.as_u32(),
        ),
    ];

    for (inflected, plain, reason_chains, word_type) in cases {
        let result = deinflector.deinflect(inflected);
        let match_candidate = result.iter().find(|candidate| candidate.word == plain);
        assert!(
            match_candidate.is_some(),
            "Failed to find '{}' in '{}'",
            plain,
            inflected
        );
        let candidate = match_candidate.unwrap();
        assert_eq!(candidate.reason_chains, reason_chains);
        assert_eq!(candidate.word_type, word_type);
        assert_eq!(candidate.word, plain);
    }
}

#[test]
fn test_deinflects_masu_stem_forms() {
    let deinflector = Deinflector::new();
    let result = deinflector.deinflect("食べ");
    let match_candidate = result.iter().find(|candidate| candidate.word == "食べる");
    assert_eq!(
        match_candidate,
        Some(&CandidateWord {
            word: "食べる".to_string(),
            reason_chains: vec![vec![Reason::MasuStem]],
            word_type: WordType::IchidanVerb.as_u32() | WordType::KuruVerb.as_u32(),
        })
    );
}

#[test]
fn test_deinflects_nu() {
    let deinflector = Deinflector::new();
    let cases = vec![
        ("思わぬ", "思う", WordType::GodanVerb.as_u32()),
        ("行かぬ", "行く", WordType::GodanVerb.as_u32()),
        ("話さぬ", "話す", WordType::GodanVerb.as_u32()),
        ("経たぬ", "経つ", WordType::GodanVerb.as_u32()),
        ("死なぬ", "死ぬ", WordType::GodanVerb.as_u32()),
        ("遊ばぬ", "遊ぶ", WordType::GodanVerb.as_u32()),
        ("止まぬ", "止む", WordType::GodanVerb.as_u32()),
        ("切らぬ", "切る", WordType::GodanVerb.as_u32()),
        (
            "見ぬ",
            "見る",
            WordType::IchidanVerb.as_u32() | WordType::KuruVerb.as_u32(),
        ),
        ("こぬ", "くる", WordType::KuruVerb.as_u32()),
        ("せぬ", "する", WordType::SuruVerb.as_u32()),
    ];

    for (inflected, plain, word_type) in cases {
        let result = deinflector.deinflect(inflected);
        let match_candidate = result.iter().find(|candidate| candidate.word == plain);
        assert!(
            match_candidate.is_some(),
            "Failed to find '{}' in '{}'",
            plain,
            inflected
        );
        let candidate = match_candidate.unwrap();
        assert_eq!(candidate.reason_chains, vec![vec![Reason::Negative]]);
        assert_eq!(candidate.word_type, word_type);
        assert_eq!(candidate.word, plain);
    }
}

#[test]
fn test_recursively_deinflects_nu() {
    let deinflector = Deinflector::new();
    let result = deinflector.deinflect("食べられぬ");
    let match_candidate = result.iter().find(|candidate| candidate.word == "食べる");
    assert_eq!(
        match_candidate,
        Some(&CandidateWord {
            word: "食べる".to_string(),
            reason_chains: vec![vec![Reason::PotentialOrPassive, Reason::Negative]],
            word_type: WordType::IchidanVerb.as_u32() | WordType::KuruVerb.as_u32(),
        })
    );
}

#[test]
fn test_deinflects_ki_to_kuru() {
    let deinflector = Deinflector::new();
    let result = deinflector.deinflect("き");
    let match_candidate = result.iter().find(|candidate| candidate.word == "くる");
    assert_eq!(
        match_candidate,
        Some(&CandidateWord {
            word: "くる".to_string(),
            reason_chains: vec![vec![Reason::MasuStem]],
            word_type: WordType::KuruVerb.as_u32(),
        })
    );
}

#[test]
fn test_deinflects_ki_ending_for_i_adj() {
    let deinflector = Deinflector::new();
    let result = deinflector.deinflect("美しき");
    let match_candidate = result.iter().find(|candidate| candidate.word == "美しい");
    assert_eq!(
        match_candidate,
        Some(&CandidateWord {
            word: "美しい".to_string(),
            reason_chains: vec![vec![Reason::Ki]],
            word_type: WordType::IAdj.as_u32(),
        })
    );
}

#[test]
fn test_deinflects_all_forms_of_suru() {
    let deinflector = Deinflector::new();
    let cases = vec![
        ("した", vec![Reason::Past]),
        ("しよう", vec![Reason::Volitional]),
        ("しない", vec![Reason::Negative]),
        ("せぬ", vec![Reason::Negative]),
        ("せん", vec![Reason::Negative]),
        ("せず", vec![Reason::Zu]),
        ("される", vec![Reason::Passive]),
        ("させる", vec![Reason::Causative]),
        ("しろ", vec![Reason::Imperative]),
        ("せよ", vec![Reason::Imperative]),
        ("すれば", vec![Reason::Ba]),
        ("できる", vec![Reason::Potential]),
    ];

    for (inflected, reasons) in cases {
        let result = deinflector.deinflect(inflected);
        let match_candidate = result.iter().find(|candidate| {
            candidate.word == "する" && (candidate.word_type & WordType::SuruVerb.as_u32()) != 0
        });
        assert!(
            match_candidate.is_some(),
            "Failed to find 'する' for '{}'",
            inflected
        );
        let candidate = match_candidate.unwrap();
        assert_eq!(candidate.reason_chains, vec![reasons]);
    }
}

#[test]
fn test_deinflects_additional_forms_of_special_class_suru_verbs() {
    let deinflector = Deinflector::new();
    let cases = vec![
        (
            "発せさせる",
            "発する",
            vec![Reason::Irregular, Reason::Causative],
        ),
        (
            "発せられる",
            "発する",
            vec![Reason::Irregular, Reason::PotentialOrPassive],
        ),
        (
            "発しさせる",
            "発する",
            vec![Reason::Irregular, Reason::Causative],
        ),
        (
            "発しられる",
            "発する",
            vec![Reason::Irregular, Reason::PotentialOrPassive],
        ),
        // 五段化
        (
            "発さない",
            "発する",
            vec![Reason::Irregular, Reason::Negative],
        ),
        (
            "発さないで",
            "発する",
            vec![Reason::Irregular, Reason::NegativeTe],
        ),
        ("発さず", "発する", vec![Reason::Irregular, Reason::Zu]),
        (
            "発そう",
            "発する",
            vec![Reason::Irregular, Reason::Volitional],
        ),
        ("愛せば", "愛する", vec![Reason::Irregular, Reason::Ba]),
        (
            "愛せ",
            "愛する",
            vec![Reason::Irregular, Reason::Imperative],
        ),
        // ずる / vz class verbs
        (
            "信ぜぬ",
            "信ずる",
            vec![Reason::Irregular, Reason::Negative],
        ),
        ("信ぜず", "信ずる", vec![Reason::Irregular, Reason::Zu]),
        (
            "信ぜさせる",
            "信ずる",
            vec![Reason::Irregular, Reason::Causative],
        ),
        (
            "信ぜられる",
            "信ずる",
            vec![Reason::Irregular, Reason::PotentialOrPassive],
        ),
        ("信ずれば", "信ずる", vec![Reason::Irregular, Reason::Ba]),
        (
            "信ぜよ",
            "信ずる",
            vec![Reason::Irregular, Reason::Imperative],
        ),
    ];

    for (inflected, plain, reasons) in cases {
        let result = deinflector.deinflect(inflected);
        let match_candidate = result.iter().find(|candidate| candidate.word == plain);
        assert!(
            match_candidate.is_some(),
            "Failed to find '{}' for '{}'",
            plain,
            inflected
        );
        let candidate = match_candidate.unwrap();
        assert_eq!(candidate.word_type, WordType::SpecialSuruVerb.as_u32());
        assert_eq!(candidate.reason_chains, vec![reasons]);
    }
}

#[test]
fn test_deinflects_irregular_forms_of_iku() {
    let deinflector = Deinflector::new();
    let cases = vec![
        ("行った", "行く", Reason::Past, WordType::GodanVerb.as_u32()),
        ("行って", "行く", Reason::Te, WordType::GodanVerb.as_u32()),
        (
            "行ったり",
            "行く",
            Reason::Tari,
            WordType::GodanVerb.as_u32(),
        ),
        (
            "行ったら",
            "行く",
            Reason::Tara,
            WordType::GodanVerb.as_u32(),
        ),
        ("いった", "いく", Reason::Past, WordType::GodanVerb.as_u32()),
        ("いって", "いく", Reason::Te, WordType::GodanVerb.as_u32()),
        (
            "いったり",
            "いく",
            Reason::Tari,
            WordType::GodanVerb.as_u32(),
        ),
        (
            "いったら",
            "いく",
            Reason::Tara,
            WordType::GodanVerb.as_u32(),
        ),
        ("逝った", "逝く", Reason::Past, WordType::GodanVerb.as_u32()),
        ("往った", "往く", Reason::Past, WordType::GodanVerb.as_u32()),
    ];

    for (inflected, plain, reason, word_type) in cases {
        let result = deinflector.deinflect(inflected);
        let match_candidate = result.iter().find(|candidate| candidate.word == plain);
        assert!(
            match_candidate.is_some(),
            "Failed to find '{}' for '{}'",
            plain,
            inflected
        );
        let candidate = match_candidate.unwrap();
        assert_eq!(candidate.reason_chains, vec![vec![reason]]);
        assert_eq!(candidate.word_type, word_type);
        assert_eq!(candidate.word, plain);
    }
}

#[test]
fn test_does_not_deinflect_other_verbs_ending_in_ku_like_iku() {
    let deinflector = Deinflector::new();
    let result = deinflector.deinflect("もどって");
    let match_candidate = result.iter().find(|candidate| candidate.word == "もどく");
    assert!(match_candidate.is_none(), "Should not find 'もどく'");
}

#[test]
fn test_deinflects_other_irregular_verbs() {
    let deinflector = Deinflector::new();
    let cases = vec![
        "請うた",
        "請う",
        "乞うた",
        "乞う",
        "恋うた",
        "恋う",
        "こうた",
        "こう",
        "問うた",
        "問う",
        "とうた",
        "とう",
        "負うた",
        "負う",
        "おうた",
        "おう",
        "沿うた",
        "沿う",
        "添うた",
        "添う",
        "副うた",
        "副う",
        "そうた",
        "そう",
        "厭うた",
        "厭う",
        "いとうた",
        "いとう",
        "のたまうた",
        "のたまう",
        "のたもうた",
        "のたもう",
        "宣うた",
        "宣う",
        "曰うた",
        "曰う",
        "たまうた",
        "たまう",
        "たもうた",
        "たもう",
        "給うた",
        "給う",
        "賜うた",
        "賜う",
        "たゆたうた",
        "たゆたう",
        "たゆとうた",
        "たゆとう",
        "揺蕩うた",
        "揺蕩う",
    ];

    for i in (0..cases.len()).step_by(2) {
        let inflected = cases[i];
        let plain = cases[i + 1];
        let result = deinflector.deinflect(inflected);
        let match_candidate = result.iter().find(|candidate| candidate.word == plain);
        assert!(
            match_candidate.is_some(),
            "Failed to find '{}' for '{}'",
            plain,
            inflected
        );
        let candidate = match_candidate.unwrap();
        assert_eq!(candidate.reason_chains, vec![vec![Reason::Past]]);
        assert_eq!(candidate.word_type, WordType::GodanVerb.as_u32());
        assert_eq!(candidate.word, plain);
    }
}

#[test]
fn test_deinflects_continuous_forms_of_other_irregular_verbs() {
    let deinflector = Deinflector::new();
    let cases = vec![
        ("請うている", "請う", vec![Reason::Continuous]),
        ("乞うている", "乞う", vec![Reason::Continuous]),
        ("恋うている", "恋う", vec![Reason::Continuous]),
        ("こうてる", "こう", vec![Reason::Continuous]),
        ("問うてる", "問う", vec![Reason::Continuous]),
        ("とうてる", "とう", vec![Reason::Continuous]),
        ("負うていた", "負う", vec![Reason::Continuous, Reason::Past]),
        ("おうていた", "おう", vec![Reason::Continuous, Reason::Past]),
        ("沿うていた", "沿う", vec![Reason::Continuous, Reason::Past]),
        ("添うてた", "添う", vec![Reason::Continuous, Reason::Past]),
        ("副うてた", "副う", vec![Reason::Continuous, Reason::Past]),
        ("そうてた", "そう", vec![Reason::Continuous, Reason::Past]),
        ("厭うていて", "厭う", vec![Reason::Continuous, Reason::Te]),
        (
            "いとうていて",
            "いとう",
            vec![Reason::Continuous, Reason::Te],
        ),
        ("のたまうている", "のたまう", vec![Reason::Continuous]),
        (
            "のたもうていた",
            "のたもう",
            vec![Reason::Continuous, Reason::Past],
        ),
        ("宣うてた", "宣う", vec![Reason::Continuous, Reason::Past]),
        ("曰うてて", "曰う", vec![Reason::Continuous, Reason::Te]),
        ("たまうている", "たまう", vec![Reason::Continuous]),
        (
            "たもうていた",
            "たもう",
            vec![Reason::Continuous, Reason::Past],
        ),
        ("給うてた", "給う", vec![Reason::Continuous, Reason::Past]),
        ("賜うてて", "賜う", vec![Reason::Continuous, Reason::Te]),
        ("たゆたうている", "たゆたう", vec![Reason::Continuous]),
        (
            "たゆとうていた",
            "たゆとう",
            vec![Reason::Continuous, Reason::Past],
        ),
        ("揺蕩うてて", "揺蕩う", vec![Reason::Continuous, Reason::Te]),
    ];

    for (inflected, plain, reasons) in cases {
        let result = deinflector.deinflect(inflected);
        let match_candidate = result.iter().find(|candidate| candidate.word == plain);
        assert!(
            match_candidate.is_some(),
            "Failed to find '{}' for '{}'",
            plain,
            inflected
        );
        let candidate = match_candidate.unwrap();
        assert_eq!(candidate.reason_chains, vec![reasons]);
        assert_eq!(candidate.word_type, WordType::GodanVerb.as_u32());
        assert_eq!(candidate.word, plain);
    }
}

#[test]
fn test_deinflects_gozaru() {
    let deinflector = Deinflector::new();
    let cases = vec![
        ("ございます", "ござる", Reason::Polite),
        ("ご座います", "ご座る", Reason::Polite),
        ("御座います", "御座る", Reason::Polite),
        ("ございません", "ござる", Reason::PoliteNegative),
        ("ご座いません", "ご座る", Reason::PoliteNegative),
        ("御座いません", "御座る", Reason::PoliteNegative),
        ("ございませんでした", "ござる", Reason::PolitePastNegative),
        ("ご座いませんでした", "ご座る", Reason::PolitePastNegative),
        ("御座いませんでした", "御座る", Reason::PolitePastNegative),
    ];

    for (inflected, plain, reason) in cases {
        let result = deinflector.deinflect(inflected);
        let match_candidate = result.iter().find(|candidate| candidate.word == plain);
        assert!(
            match_candidate.is_some(),
            "Failed to find '{}' for '{}'",
            plain,
            inflected
        );
        let candidate = match_candidate.unwrap();
        assert_eq!(candidate.reason_chains, vec![vec![reason]]);
        assert_eq!(candidate.word, plain);
    }
}

#[test]
fn test_deinflects_kudasaru() {
    let deinflector = Deinflector::new();
    let cases = vec![
        ("くださいます", "くださる", Reason::Polite),
        ("下さいます", "下さる", Reason::Polite),
        ("くださいません", "くださる", Reason::PoliteNegative),
        ("下さいません", "下さる", Reason::PoliteNegative),
        (
            "くださいませんでした",
            "くださる",
            Reason::PolitePastNegative,
        ),
        ("下さいませんでした", "下さる", Reason::PolitePastNegative),
    ];

    for (inflected, plain, reason) in cases {
        let result = deinflector.deinflect(inflected);
        let match_candidate = result.iter().find(|candidate| candidate.word == plain);
        assert!(
            match_candidate.is_some(),
            "Failed to find '{}' for '{}'",
            plain,
            inflected
        );
        let candidate = match_candidate.unwrap();
        assert_eq!(candidate.reason_chains, vec![vec![reason]]);
        assert_eq!(candidate.word, plain);
    }
}

#[test]
fn test_deinflects_irassharu() {
    let deinflector = Deinflector::new();
    let cases = vec![
        (
            "いらっしゃいます",
            "いらっしゃる",
            vec![vec![Reason::Polite]],
        ),
        (
            "いらっしゃい",
            "いらっしゃる",
            vec![vec![Reason::Imperative], vec![Reason::MasuStem]],
        ),
        ("いらっしゃって", "いらっしゃる", vec![vec![Reason::Te]]),
    ];

    for (inflected, plain, reason_chains) in cases {
        let result = deinflector.deinflect(inflected);
        let match_candidate = result.iter().find(|candidate| candidate.word == plain);
        assert!(
            match_candidate.is_some(),
            "Failed to find '{}' for '{}'",
            plain,
            inflected
        );
        let candidate = match_candidate.unwrap();
        assert_eq!(candidate.reason_chains, reason_chains);
        assert_eq!(candidate.word, plain);
    }
}

#[test]
fn test_deinflects_the_continuous_form() {
    let deinflector = Deinflector::new();
    let cases = vec![
        // U-verbs
        ("戻っている", "戻る", WordType::GodanVerb.as_u32(), None),
        ("戻ってる", "戻る", WordType::GodanVerb.as_u32(), None),
        ("歩いている", "歩く", WordType::GodanVerb.as_u32(), None),
        ("歩いてる", "歩く", WordType::GodanVerb.as_u32(), None),
        ("泳いでいる", "泳ぐ", WordType::GodanVerb.as_u32(), None),
        ("泳いでる", "泳ぐ", WordType::GodanVerb.as_u32(), None),
        ("話している", "話す", WordType::GodanVerb.as_u32(), None),
        ("話してる", "話す", WordType::GodanVerb.as_u32(), None),
        ("死んでいる", "死ぬ", WordType::GodanVerb.as_u32(), None),
        ("死んでる", "死ぬ", WordType::GodanVerb.as_u32(), None),
        ("飼っている", "飼う", WordType::GodanVerb.as_u32(), None),
        ("飼ってる", "飼う", WordType::GodanVerb.as_u32(), None),
        ("放っている", "放つ", WordType::GodanVerb.as_u32(), None),
        ("放ってる", "放つ", WordType::GodanVerb.as_u32(), None),
        ("遊んでいる", "遊ぶ", WordType::GodanVerb.as_u32(), None),
        ("遊んでる", "遊ぶ", WordType::GodanVerb.as_u32(), None),
        ("歩んでいる", "歩む", WordType::GodanVerb.as_u32(), None),
        ("歩んでる", "歩む", WordType::GodanVerb.as_u32(), None),
        // Ru-verbs
        (
            "食べている",
            "食べる",
            WordType::IchidanVerb.as_u32() | WordType::KuruVerb.as_u32(),
            None,
        ),
        (
            "食べてる",
            "食べる",
            WordType::IchidanVerb.as_u32() | WordType::KuruVerb.as_u32(),
            None,
        ),
        // Special verbs
        ("している", "する", WordType::SuruVerb.as_u32(), None),
        ("してる", "する", WordType::SuruVerb.as_u32(), None),
        (
            "来ている",
            "来る",
            WordType::IchidanVerb.as_u32() | WordType::KuruVerb.as_u32(),
            None,
        ),
        (
            "来てる",
            "来る",
            WordType::IchidanVerb.as_u32() | WordType::KuruVerb.as_u32(),
            None,
        ),
        ("きている", "くる", WordType::KuruVerb.as_u32(), None),
        ("きてる", "くる", WordType::KuruVerb.as_u32(), None),
        // Combinations
        (
            "戻っています",
            "戻る",
            WordType::GodanVerb.as_u32(),
            Some(vec![Reason::Continuous, Reason::Polite]),
        ),
        (
            "戻ってます",
            "戻る",
            WordType::GodanVerb.as_u32(),
            Some(vec![Reason::Continuous, Reason::Polite]),
        ),
        (
            "戻っていない",
            "戻る",
            WordType::GodanVerb.as_u32(),
            Some(vec![Reason::Continuous, Reason::Negative]),
        ),
        (
            "戻ってない",
            "戻る",
            WordType::GodanVerb.as_u32(),
            Some(vec![Reason::Continuous, Reason::Negative]),
        ),
        (
            "戻っていた",
            "戻る",
            WordType::GodanVerb.as_u32(),
            Some(vec![Reason::Continuous, Reason::Past]),
        ),
        (
            "戻ってた",
            "戻る",
            WordType::GodanVerb.as_u32(),
            Some(vec![Reason::Continuous, Reason::Past]),
        ),
    ];

    for (inflected, plain, word_type, reasons) in cases {
        let result = deinflector.deinflect(inflected);
        let match_candidate = result.iter().find(|candidate| candidate.word == plain);
        assert!(
            match_candidate.is_some(),
            "Failed to find '{}' for '{}'",
            plain,
            inflected
        );
        let candidate = match_candidate.unwrap();
        let expected_reasons = reasons.unwrap_or(vec![Reason::Continuous]);
        assert_eq!(candidate.reason_chains, vec![expected_reasons]);
        assert_eq!(candidate.word_type, word_type);
        assert_eq!(candidate.word, plain);
    }

    // Check we don't get false positives
    let result = deinflector.deinflect("食べて");
    let match_candidate = result.iter().find(|candidate| candidate.word == "食べる");
    assert!(match_candidate.is_some());
    let candidate = match_candidate.unwrap();
    assert!(!candidate
        .reason_chains
        .iter()
        .any(|chain| chain.contains(&Reason::Continuous)));
}

#[test]
fn test_deinflects_respectful_continuous_forms() {
    let deinflector = Deinflector::new();
    let cases = vec![
        (
            "分かっていらっしゃる",
            "分かる",
            vec![Reason::Respectful, Reason::Continuous],
        ),
        (
            "分かっていらっしゃい",
            "分かる",
            vec![Reason::Respectful, Reason::Continuous, Reason::Imperative],
        ),
        (
            "分かってらっしゃる",
            "分かる",
            vec![Reason::Respectful, Reason::Continuous],
        ),
        (
            "分かってらっしゃい",
            "分かる",
            vec![Reason::Respectful, Reason::Continuous, Reason::Imperative],
        ),
        (
            "読んでいらっしゃる",
            "読む",
            vec![Reason::Respectful, Reason::Continuous],
        ),
        (
            "読んでいらっしゃい",
            "読む",
            vec![Reason::Respectful, Reason::Continuous, Reason::Imperative],
        ),
        (
            "読んでらっしゃる",
            "読む",
            vec![Reason::Respectful, Reason::Continuous],
        ),
        (
            "読んでらっしゃい",
            "読む",
            vec![Reason::Respectful, Reason::Continuous, Reason::Imperative],
        ),
        (
            "起きていらっしゃる",
            "起きる",
            vec![Reason::Respectful, Reason::Continuous],
        ),
        (
            "起きていらっしゃい",
            "起きる",
            vec![Reason::Respectful, Reason::Continuous, Reason::Imperative],
        ),
        (
            "起きてらっしゃる",
            "起きる",
            vec![Reason::Respectful, Reason::Continuous],
        ),
        (
            "起きてらっしゃい",
            "起きる",
            vec![Reason::Respectful, Reason::Continuous, Reason::Imperative],
        ),
        (
            "分かっていらっしゃいます",
            "分かる",
            vec![Reason::Respectful, Reason::Continuous, Reason::Polite],
        ),
        (
            "分かってらっしゃいます",
            "分かる",
            vec![Reason::Respectful, Reason::Continuous, Reason::Polite],
        ),
        (
            "分かっていらっしゃって",
            "分かる",
            vec![Reason::Respectful, Reason::Continuous, Reason::Te],
        ),
        (
            "分かってらっしゃって",
            "分かる",
            vec![Reason::Respectful, Reason::Continuous, Reason::Te],
        ),
    ];

    for (inflected, plain, reasons) in cases {
        let result = deinflector.deinflect(inflected);
        let match_candidate = result.iter().find(|candidate| candidate.word == plain);
        assert!(
            match_candidate.is_some(),
            "Failed to find '{}' for '{}'",
            plain,
            inflected
        );
        let candidate = match_candidate.unwrap();
        assert_eq!(candidate.reason_chains, vec![reasons]);
    }
}

#[test]
fn test_deinflects_nasaru_as_respectful_speech_for_suru() {
    let deinflector = Deinflector::new();
    let cases = vec![
        (
            "なさい",
            "なさる",
            vec![vec![Reason::Imperative], vec![Reason::MasuStem]],
        ),
        (
            "食べなさい",
            "食べる",
            vec![vec![Reason::Respectful, Reason::Imperative]],
        ),
        (
            "帰りなさいませ",
            "帰る",
            vec![vec![Reason::Respectful, Reason::Polite, Reason::Imperative]],
        ),
        (
            "仕事なさる",
            "仕事",
            vec![vec![Reason::SuruNoun, Reason::Respectful]],
        ),
        (
            "エンジョイなさって",
            "エンジョイ",
            vec![vec![Reason::SuruNoun, Reason::Respectful, Reason::Te]],
        ),
        (
            "喜びなさった",
            "喜ぶ",
            vec![vec![Reason::Respectful, Reason::Past]],
        ),
    ];

    for (inflected, plain, reason_chains) in cases {
        let result = deinflector.deinflect(inflected);
        let match_candidate = result.iter().find(|candidate| candidate.word == plain);
        assert!(
            match_candidate.is_some(),
            "Failed to find '{}' for '{}'",
            plain,
            inflected
        );
        let candidate = match_candidate.unwrap();
        assert_eq!(candidate.reason_chains, reason_chains);
    }
}

#[test]
fn test_deinflects_ni_naru_as_respectful_speech() {
    let deinflector = Deinflector::new();
    let cases = vec![
        (
            "到着になります",
            "到着",
            vec![Reason::SuruNoun, Reason::Respectful, Reason::Polite],
        ),
        (
            "読みになります",
            "読む",
            vec![Reason::Respectful, Reason::Polite],
        ),
        (
            "見えになります",
            "見える",
            vec![Reason::Respectful, Reason::Polite],
        ),
    ];

    for (inflected, plain, reasons) in cases {
        let result = deinflector.deinflect(inflected);
        let match_candidate = result.iter().find(|candidate| candidate.word == plain);
        assert!(
            match_candidate.is_some(),
            "Failed to find '{}' for '{}'",
            plain,
            inflected
        );
        let candidate = match_candidate.unwrap();
        assert_eq!(candidate.reason_chains, vec![reasons]);
    }
}

#[test]
fn test_deinflects_humble_or_kansai_dialect_continuous_forms() {
    let deinflector = Deinflector::new();
    let cases = vec![
        (
            "行っておる",
            "行く",
            vec![Reason::HumbleOrKansaiDialect, Reason::Continuous],
        ),
        (
            "行っており",
            "行く",
            vec![
                Reason::HumbleOrKansaiDialect,
                Reason::Continuous,
                Reason::MasuStem,
            ],
        ),
        (
            "行っとる",
            "行く",
            vec![Reason::HumbleOrKansaiDialect, Reason::Continuous],
        ),
        (
            "行っとり",
            "行く",
            vec![
                Reason::HumbleOrKansaiDialect,
                Reason::Continuous,
                Reason::MasuStem,
            ],
        ),
        (
            "読んでおる",
            "読む",
            vec![Reason::HumbleOrKansaiDialect, Reason::Continuous],
        ),
        (
            "読んでおり",
            "読む",
            vec![
                Reason::HumbleOrKansaiDialect,
                Reason::Continuous,
                Reason::MasuStem,
            ],
        ),
        (
            "読んどる",
            "読む",
            vec![Reason::HumbleOrKansaiDialect, Reason::Continuous],
        ),
        (
            "読んどり",
            "読む",
            vec![
                Reason::HumbleOrKansaiDialect,
                Reason::Continuous,
                Reason::MasuStem,
            ],
        ),
        (
            "起きておる",
            "起きる",
            vec![Reason::HumbleOrKansaiDialect, Reason::Continuous],
        ),
        (
            "起きており",
            "起きる",
            vec![
                Reason::HumbleOrKansaiDialect,
                Reason::Continuous,
                Reason::MasuStem,
            ],
        ),
        (
            "起きとる",
            "起きる",
            vec![Reason::HumbleOrKansaiDialect, Reason::Continuous],
        ),
        (
            "起きとり",
            "起きる",
            vec![
                Reason::HumbleOrKansaiDialect,
                Reason::Continuous,
                Reason::MasuStem,
            ],
        ),
    ];

    for (inflected, plain, reasons) in cases {
        let result = deinflector.deinflect(inflected);
        let match_candidate = result.iter().find(|candidate| candidate.word == plain);
        assert!(
            match_candidate.is_some(),
            "Failed to find '{}' for '{}'",
            plain,
            inflected
        );
        let candidate = match_candidate.unwrap();
        assert_eq!(candidate.reason_chains, vec![reasons]);
    }
}

#[test]
fn test_deinflects_itasu_as_humble_speech_for_suru() {
    let deinflector = Deinflector::new();
    let cases = vec![
        (
            "お願いいたします",
            "お願い",
            vec![Reason::SuruNoun, Reason::Humble, Reason::Polite],
        ),
        (
            "お願い致します",
            "お願い",
            vec![Reason::SuruNoun, Reason::Humble, Reason::Polite],
        ),
        (
            "待ちいたします",
            "待つ",
            vec![Reason::Humble, Reason::Polite],
        ),
        ("待ち致します", "待つ", vec![Reason::Humble, Reason::Polite]),
        (
            "食べいたします",
            "食べる",
            vec![Reason::Humble, Reason::Polite],
        ),
        (
            "食べ致します",
            "食べる",
            vec![Reason::Humble, Reason::Polite],
        ),
    ];

    for (inflected, plain, reasons) in cases {
        let result = deinflector.deinflect(inflected);
        let match_candidate = result.iter().find(|candidate| candidate.word == plain);
        assert!(
            match_candidate.is_some(),
            "Failed to find '{}' for '{}'",
            plain,
            inflected
        );
        let candidate = match_candidate.unwrap();
        assert_eq!(candidate.reason_chains, vec![reasons]);
    }
}

#[test]
fn test_deinflects_zaru_wo_enai() {
    let deinflector = Deinflector::new();
    let cases = vec![
        "闘わざるを得なかった",
        "闘わざるをえなかった",
        "やらざるを得ぬ",
        "やらざるをえぬ",
        "闘わざる得なかった",
        "闘わざるえなかった",
        "やらざる得ぬ",
        "やらざるえぬ",
    ];
    for inflected in cases {
        let result = deinflector.deinflect(inflected);
        let match_candidate = result
            .iter()
            .find(|candidate| candidate.word == "闘う" || candidate.word == "やる");
        assert!(
            match_candidate.is_some(),
            "Failed to find result for '{}'",
            inflected
        );
        let candidate = match_candidate.unwrap();
        // The ざるを得ない reason should be the first one in the list
        assert_eq!(candidate.reason_chains[0][0], Reason::ZaruWoEnai);
    }
}

#[test]
fn test_deinflects_naide() {
    let deinflector = Deinflector::new();
    let cases = vec![
        "遊ばないで",
        "やらないで",
        "食べないで",
        "しないで",
        "こないで",
        "来ないで",
    ];
    for inflected in cases {
        let result = deinflector.deinflect(inflected);
        let match_candidate = result.iter().find(|candidate| {
            candidate.word == "遊ぶ"
                || candidate.word == "やる"
                || candidate.word == "食べる"
                || candidate.word == "する"
                || candidate.word == "くる"
                || candidate.word == "来る"
        });
        assert!(
            match_candidate.is_some(),
            "Failed to find result for '{}'",
            inflected
        );
        let candidate = match_candidate.unwrap();
        assert_eq!(candidate.reason_chains[0][0], Reason::NegativeTe);
    }
}

#[test]
fn test_deinflects_eru_uru() {
    let deinflector = Deinflector::new();
    let cases = vec![
        "し得る",
        "しえる",
        "しうる",
        "来得る",
        "あり得る",
        "考え得る",
    ];
    for inflected in cases {
        let result = deinflector.deinflect(inflected);
        let match_candidate = result.iter().find(|candidate| {
            candidate.word == "する"
                || candidate.word == "来る"
                || candidate.word == "ある"
                || candidate.word == "考える"
        });
        assert!(
            match_candidate.is_some(),
            "Failed to find result for '{}'",
            inflected
        );
        let candidate = match_candidate.unwrap();
        assert_eq!(candidate.reason_chains, vec![vec![Reason::EruUru]]);
    }
}

#[test]
fn test_kana_conversion() {
    let deinflector = Deinflector::new();

    // Test katakana to hiragana conversion
    assert_eq!(deinflector.kana_to_hiragana("カタカナ"), "かたかな");
    assert_eq!(deinflector.kana_to_hiragana("ひらがな"), "ひらがな"); // Already hiragana
}
