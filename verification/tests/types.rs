use ffxiv_reader::messages::MessageType;

fn documented(code: u8) -> bool {
    matches!(code, 0..=3 | 10..=24 | 27..=30 | 32 | 41..=47 | 56..=62 | 64..=76 | 80..=93
        | 169..=177 | 185 | 186 | 190)
}

#[test]
fn every_code_has_a_category() {
    for code in 0..=255u8 {
        let t = MessageType::from(code);
        if documented(code) {
            assert!(!matches!(t, MessageType::Unknown(_)), "code {}", code);
        } else {
            assert_eq!(t, MessageType::Unknown(code));
        }
        assert_eq!(t, MessageType::from_code(code));
    }
}

#[test]
fn some_categories_by_code() {
    assert_eq!(MessageType::from(0), MessageType::NoCategory);
    assert_eq!(MessageType::from(1), MessageType::Debug);
    assert_eq!(MessageType::from(10), MessageType::Say);
    assert_eq!(MessageType::from(12), MessageType::Tell);
    assert_eq!(MessageType::from(24), MessageType::FreeCompany);
    assert_eq!(MessageType::from(58), MessageType::BattleSystemMessages);
    assert_eq!(MessageType::from(60), MessageType::SystemErrorMessages);
    assert_eq!(MessageType::from(75), MessageType::NoviceNetworkNotifications);
    assert_eq!(MessageType::from(76), MessageType::MusicChange);
    assert_eq!(MessageType::from(173), MessageType::BattleSelfAbsorb);
    assert_eq!(MessageType::from(174), MessageType::BattleGainBuff);
    assert_eq!(MessageType::from(186), MessageType::BattleDeath);
    assert_eq!(MessageType::from(190), MessageType::GainMgp);
    assert_eq!(MessageType::from(4), MessageType::Unknown(4));
    assert_eq!(MessageType::from(255), MessageType::Unknown(255));
}

#[test]
fn categories_are_distinct() {
    let mut seen: Vec<MessageType> = Vec::new();
    for code in 0..=255u8 {
        let t = MessageType::from(code);
        assert!(!seen.contains(&t));
        seen.push(t);
    }
}
