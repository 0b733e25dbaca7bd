//! The categories of chat-log entries.

use vstd::prelude::*;
use vstd::std_specs::convert::FromSpecImpl;

verus! {

/// The category of an entry, as the client's log numbers it.
#[derive(Debug, PartialEq, Eq, Structural, Clone, Copy)]
pub enum MessageType {
    /// The code zero, which names no category.
    NoCategory,
    Debug,
    UrgentInformation,
    GeneralInformation,
    Say,
    Shout,
    Tell,
    TellReceive,
    Party,
    Alliance,
    Linkshell1,
    Linkshell2,
    Linkshell3,
    Linkshell4,
    Linkshell5,
    Linkshell6,
    Linkshell7,
    Linkshell8,
    FreeCompany,
    NoviceNetwork,
    CustomEmotes,
    StandardEmotes,
    Yell,
    Party2,
    Damage,
    FailedAttacks,
    Actions,
    Items,
    HealingMagic,
    BeneficialEffects,
    DetrimentalEffects,
    Echo,
    SystemMessages,
    SystemErrorMessages,
    BattleSystemMessages,
    GatheringSystemMessages,
    NpcSay,
    LootNotices,
    CharacterProgress,
    LootMessages,
    CraftingMessages,
    GatheringMessages,
    NpcAnnouncements,
    FcAnnouncements,
    FcLoginMessages,
    RetainerSaleReports,
    PartySearchInfo,
    SignSettings,
    DiceRolls,
    MusicChange,
    NoviceNetworkNotifications,
    GmTell,
    GmSay,
    GmShout,
    GmYell,
    GmParty,
    GmFreeCompany,
    GmLinkshell1,
    GmLinkshell2,
    GmLinkshell3,
    GmLinkshell4,
    GmLinkshell5,
    GmLinkshell6,
    GmLinkshell7,
    GmLinkshell8,
    BattleReceiveDamage,
    BattleResistDebuff,
    BattleCast,
    ReadyItem,
    BattleGainBuff,
    BattleSelfAbsorb,
    BattleSufferDebuff,
    BattleLoseBuff,
    BattleRecoverDebuff,
    TrialUpdate,
    BattleDeath,
    GainMgp,
    /// A code that stands for no known category; the code is kept.
    Unknown(u8),
}

/// The codes that stand for a known category.
pub open spec fn is_documented(code: u8) -> bool {
    ||| code <= 3
    ||| 10 <= code <= 24
    ||| 27 <= code <= 30
    ||| code == 32
    ||| 41 <= code <= 47
    ||| 56 <= code <= 62
    ||| 64 <= code <= 76
    ||| 80 <= code <= 93
    ||| 169 <= code <= 177
    ||| code == 185
    ||| code == 186
    ||| code == 190
}

/// The category that a code stands for.
pub open spec fn classify(code: u8) -> MessageType {
    if code == 0 {
        MessageType::NoCategory
    }     else if code == 1 {
        MessageType::Debug
    }     else if code == 2 {
        MessageType::UrgentInformation
    }     else if code == 3 {
        MessageType::GeneralInformation
    }     else if code == 10 {
        MessageType::Say
    }     else if code == 11 {
        MessageType::Shout
    }     else if code == 12 {
        MessageType::Tell
    }     else if code == 13 {
        MessageType::TellReceive
    }     else if code == 14 {
        MessageType::Party
    }     else if code == 15 {
        MessageType::Alliance
    }     else if code == 16 {
        MessageType::Linkshell1
    }     else if code == 17 {
        MessageType::Linkshell2
    }     else if code == 18 {
        MessageType::Linkshell3
    }     else if code == 19 {
        MessageType::Linkshell4
    }     else if code == 20 {
        MessageType::Linkshell5
    }     else if code == 21 {
        MessageType::Linkshell6
    }     else if code == 22 {
        MessageType::Linkshell7
    }     else if code == 23 {
        MessageType::Linkshell8
    }     else if code == 24 {
        MessageType::FreeCompany
    }     else if code == 27 {
        MessageType::NoviceNetwork
    }     else if code == 28 {
        MessageType::CustomEmotes
    }     else if code == 29 {
        MessageType::StandardEmotes
    }     else if code == 30 {
        MessageType::Yell
    }     else if code == 32 {
        MessageType::Party2
    }     else if code == 41 {
        MessageType::Damage
    }     else if code == 42 {
        MessageType::FailedAttacks
    }     else if code == 43 {
        MessageType::Actions
    }     else if code == 44 {
        MessageType::Items
    }     else if code == 45 {
        MessageType::HealingMagic
    }     else if code == 46 {
        MessageType::BeneficialEffects
    }     else if code == 47 {
        MessageType::DetrimentalEffects
    }     else if code == 56 {
        MessageType::Echo
    }     else if code == 57 {
        MessageType::SystemMessages
    }     else if code == 58 {
        MessageType::BattleSystemMessages
    }     else if code == 59 {
        MessageType::GatheringSystemMessages
    }     else if code == 60 {
        MessageType::SystemErrorMessages
    }     else if code == 61 {
        MessageType::NpcSay
    }     else if code == 62 {
        MessageType::LootNotices
    }     else if code == 64 {
        MessageType::CharacterProgress
    }     else if code == 65 {
        MessageType::LootMessages
    }     else if code == 66 {
        MessageType::CraftingMessages
    }     else if code == 67 {
        MessageType::GatheringMessages
    }     else if code == 68 {
        MessageType::NpcAnnouncements
    }     else if code == 69 {
        MessageType::FcAnnouncements
    }     else if code == 70 {
        MessageType::FcLoginMessages
    }     else if code == 71 {
        MessageType::RetainerSaleReports
    }     else if code == 72 {
        MessageType::PartySearchInfo
    }     else if code == 73 {
        MessageType::SignSettings
    }     else if code == 74 {
        MessageType::DiceRolls
    }     else if code == 75 {
        MessageType::NoviceNetworkNotifications
    }     else if code == 76 {
        MessageType::MusicChange
    }     else if code == 80 {
        MessageType::GmTell
    }     else if code == 81 {
        MessageType::GmSay
    }     else if code == 82 {
        MessageType::GmShout
    }     else if code == 83 {
        MessageType::GmYell
    }     else if code == 84 {
        MessageType::GmParty
    }     else if code == 85 {
        MessageType::GmFreeCompany
    }     else if code == 86 {
        MessageType::GmLinkshell1
    }     else if code == 87 {
        MessageType::GmLinkshell2
    }     else if code == 88 {
        MessageType::GmLinkshell3
    }     else if code == 89 {
        MessageType::GmLinkshell4
    }     else if code == 90 {
        MessageType::GmLinkshell5
    }     else if code == 91 {
        MessageType::GmLinkshell6
    }     else if code == 92 {
        MessageType::GmLinkshell7
    }     else if code == 93 {
        MessageType::GmLinkshell8
    }     else if code == 169 {
        MessageType::BattleReceiveDamage
    }     else if code == 170 {
        MessageType::BattleResistDebuff
    }     else if code == 171 {
        MessageType::BattleCast
    }     else if code == 172 {
        MessageType::ReadyItem
    }     else if code == 174 {
        MessageType::BattleGainBuff
    }     else if code == 173 {
        MessageType::BattleSelfAbsorb
    }     else if code == 175 {
        MessageType::BattleSufferDebuff
    }     else if code == 176 {
        MessageType::BattleLoseBuff
    }     else if code == 177 {
        MessageType::BattleRecoverDebuff
    }     else if code == 185 {
        MessageType::TrialUpdate
    }     else if code == 186 {
        MessageType::BattleDeath
    }     else if code == 190 {
        MessageType::GainMgp
    } else {
        MessageType::Unknown(code)
    }
}

impl MessageType {
    /// The code is kept: this is the escape variant.
    pub open spec fn is_unknown(self) -> bool {
        self is Unknown
    }

    /// The category that `code` stands for.
    pub fn from_code(code: u8) -> (t: MessageType)
        ensures
            t == classify(code),
    {
        match code {
            0 => MessageType::NoCategory,
            1 => MessageType::Debug,
            2 => MessageType::UrgentInformation,
            3 => MessageType::GeneralInformation,
            10 => MessageType::Say,
            11 => MessageType::Shout,
            12 => MessageType::Tell,
            13 => MessageType::TellReceive,
            14 => MessageType::Party,
            15 => MessageType::Alliance,
            16 => MessageType::Linkshell1,
            17 => MessageType::Linkshell2,
            18 => MessageType::Linkshell3,
            19 => MessageType::Linkshell4,
            20 => MessageType::Linkshell5,
            21 => MessageType::Linkshell6,
            22 => MessageType::Linkshell7,
            23 => MessageType::Linkshell8,
            24 => MessageType::FreeCompany,
            27 => MessageType::NoviceNetwork,
            28 => MessageType::CustomEmotes,
            29 => MessageType::StandardEmotes,
            30 => MessageType::Yell,
            32 => MessageType::Party2,
            41 => MessageType::Damage,
            42 => MessageType::FailedAttacks,
            43 => MessageType::Actions,
            44 => MessageType::Items,
            45 => MessageType::HealingMagic,
            46 => MessageType::BeneficialEffects,
            47 => MessageType::DetrimentalEffects,
            56 => MessageType::Echo,
            57 => MessageType::SystemMessages,
            58 => MessageType::BattleSystemMessages,
            59 => MessageType::GatheringSystemMessages,
            60 => MessageType::SystemErrorMessages,
            61 => MessageType::NpcSay,
            62 => MessageType::LootNotices,
            64 => MessageType::CharacterProgress,
            65 => MessageType::LootMessages,
            66 => MessageType::CraftingMessages,
            67 => MessageType::GatheringMessages,
            68 => MessageType::NpcAnnouncements,
            69 => MessageType::FcAnnouncements,
            70 => MessageType::FcLoginMessages,
            71 => MessageType::RetainerSaleReports,
            72 => MessageType::PartySearchInfo,
            73 => MessageType::SignSettings,
            74 => MessageType::DiceRolls,
            75 => MessageType::NoviceNetworkNotifications,
            76 => MessageType::MusicChange,
            80 => MessageType::GmTell,
            81 => MessageType::GmSay,
            82 => MessageType::GmShout,
            83 => MessageType::GmYell,
            84 => MessageType::GmParty,
            85 => MessageType::GmFreeCompany,
            86 => MessageType::GmLinkshell1,
            87 => MessageType::GmLinkshell2,
            88 => MessageType::GmLinkshell3,
            89 => MessageType::GmLinkshell4,
            90 => MessageType::GmLinkshell5,
            91 => MessageType::GmLinkshell6,
            92 => MessageType::GmLinkshell7,
            93 => MessageType::GmLinkshell8,
            169 => MessageType::BattleReceiveDamage,
            170 => MessageType::BattleResistDebuff,
            171 => MessageType::BattleCast,
            172 => MessageType::ReadyItem,
            174 => MessageType::BattleGainBuff,
            173 => MessageType::BattleSelfAbsorb,
            175 => MessageType::BattleSufferDebuff,
            176 => MessageType::BattleLoseBuff,
            177 => MessageType::BattleRecoverDebuff,
            185 => MessageType::TrialUpdate,
            186 => MessageType::BattleDeath,
            190 => MessageType::GainMgp,
            _ => MessageType::Unknown(code),
        }
    }
}

/// A category that was kept as a bare code, looked up again; any other
/// category as it is.
pub open spec fn reclassified(t: MessageType) -> MessageType {
    match t {
        MessageType::Unknown(code) => classify(code),
        _ => t,
    }
}

impl MessageType {
    /// Looks a kept code up again, for codes that have since been given a
    /// category.
    pub fn reclassify(self) -> (t: MessageType)
        ensures
            t == reclassified(self),
    {
        match self {
            MessageType::Unknown(code) => MessageType::from_code(code),
            other => other,
        }
    }
}

/// To look a category up again changes nothing the second time.
pub proof fn lemma_reclassify_idempotent(t: MessageType)
    ensures
        reclassified(reclassified(t)) == reclassified(t),
{
}

impl From<u8> for MessageType {
    fn from(u: u8) -> (t: MessageType) {
        MessageType::from_code(u)
    }
}

impl FromSpecImpl<u8> for MessageType {
    open spec fn obeys_from_spec() -> bool {
        true
    }

    open spec fn from_spec(u: u8) -> MessageType {
        classify(u)
    }
}

/// Every code has a category: a known one exactly where the code is
/// documented, and else the escape variant, which keeps the code.
pub proof fn lemma_classify_total(code: u8)
    ensures
        is_documented(code) <==> !classify(code).is_unknown(),
        !is_documented(code) ==> classify(code) == MessageType::Unknown(code),
{
}

} // verus!
