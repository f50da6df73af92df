//! The verdicts of a side-by-side damage scenario between an ancient ship
//! and a modern one.
use vstd::prelude::*;
use crate::models::EraComparisonRequest;
use crate::ship_configs::{find_ship, id_texts, is_first_match};

verus! {

/// Winner when both stay safe and the ancient ship keeps the higher GM.
pub const ANCIENT_HIGHER_GM: &'static str = "古船（GM更高）";

/// Winner when both stay safe and the modern ship keeps a GM at least as high.
pub const MODERN_HIGHER_GM: &'static str = "现代船（GM更高）";

/// Winner when only the ancient ship stays safe.
pub const ANCIENT_SHIP: &'static str = "古船";

/// Winner when only the modern ship stays safe.
pub const MODERN_SHIP: &'static str = "现代船";

/// Outcome when neither ship stays safe.
pub const BOTH_SUNK: &'static str = "均沉没";

/// Remark when both ships stay safe.
pub const BOTH_SAFE_REMARK: &'static str = "两者均保持安全，体现了水密隔舱技术的有效性。";

/// Remark when only the ancient ship stays safe.
pub const ANCIENT_SAFE_REMARK: &'static str = "古船设计在该场景下表现更优，证明古代水密隔舱技术的先进性。";

/// Remark when only the modern ship stays safe.
pub const MODERN_SAFE_REMARK: &'static str = "现代船凭借双层底、边舱等额外设计表现更优。";

/// Remark when neither ship stays safe.
pub const BOTH_SUNK_REMARK: &'static str = "该破损程度超出了两船的抗沉极限。";

/// The winner of a scenario.
pub open spec fn winner_text(ancient_safe: bool, modern_safe: bool, ancient_gm_higher: bool) -> Seq<char> {
    if ancient_safe && modern_safe {
        if ancient_gm_higher {
            ANCIENT_HIGHER_GM@
        } else {
            MODERN_HIGHER_GM@
        }
    } else if ancient_safe {
        ANCIENT_SHIP@
    } else if modern_safe {
        MODERN_SHIP@
    } else {
        BOTH_SUNK@
    }
}

/// The closing remark on a scenario.
pub open spec fn remark_text(ancient_safe: bool, modern_safe: bool) -> Seq<char> {
    if ancient_safe && modern_safe {
        BOTH_SAFE_REMARK@
    } else if ancient_safe {
        ANCIENT_SAFE_REMARK@
    } else if modern_safe {
        MODERN_SAFE_REMARK@
    } else {
        BOTH_SUNK_REMARK@
    }
}

/// Names the winner of a scenario: the ship that stays safe, or, when both
/// do, the one with the higher metacentric height (`ancient_gm_higher` says
/// whether the ancient ship's is strictly higher).
pub fn scenario_winner(ancient_safe: bool, modern_safe: bool, ancient_gm_higher: bool) -> (winner: String)
    ensures
        winner@ == winner_text(ancient_safe, modern_safe, ancient_gm_higher),
{
    if ancient_safe && modern_safe {
        if ancient_gm_higher {
            String::from_str(ANCIENT_HIGHER_GM)
        } else {
            String::from_str(MODERN_HIGHER_GM)
        }
    } else if ancient_safe {
        String::from_str(ANCIENT_SHIP)
    } else if modern_safe {
        String::from_str(MODERN_SHIP)
    } else {
        String::from_str(BOTH_SUNK)
    }
}

/// The closing remark of a scenario's analysis.
pub fn scenario_remark(ancient_safe: bool, modern_safe: bool) -> (remark: String)
    ensures
        remark@ == remark_text(ancient_safe, modern_safe),
{
    if ancient_safe && modern_safe {
        String::from_str(BOTH_SAFE_REMARK)
    } else if ancient_safe {
        String::from_str(ANCIENT_SAFE_REMARK)
    } else if modern_safe {
        String::from_str(MODERN_SAFE_REMARK)
    } else {
        String::from_str(BOTH_SUNK_REMARK)
    }
}

/// Only a ship that stays safe is named the winner: when neither does, the
/// scenario ends with both sunk whatever their metacentric heights; the
/// heights decide only between two safe ships, the ancient one winning
/// exactly when its height is strictly higher.
pub proof fn law_winner_stays_safe(ancient_safe: bool, modern_safe: bool, ancient_gm_higher: bool)
    ensures
        !ancient_safe && !modern_safe ==> winner_text(ancient_safe, modern_safe, ancient_gm_higher) == BOTH_SUNK@,
        winner_text(ancient_safe, modern_safe, ancient_gm_higher) == BOTH_SUNK@ ==> !ancient_safe && !modern_safe,
        winner_text(ancient_safe, modern_safe, ancient_gm_higher) == MODERN_SHIP@ ==> modern_safe && !ancient_safe,
        winner_text(ancient_safe, modern_safe, ancient_gm_higher) == ANCIENT_SHIP@ ==> ancient_safe && !modern_safe,
        winner_text(ancient_safe, modern_safe, ancient_gm_higher) == MODERN_HIGHER_GM@ ==> ancient_safe
            && modern_safe && !ancient_gm_higher,
        winner_text(ancient_safe, modern_safe, ancient_gm_higher) == ANCIENT_HIGHER_GM@ ==> ancient_safe
            && modern_safe && ancient_gm_higher,
        !(ancient_safe && modern_safe) ==> winner_text(ancient_safe, modern_safe, ancient_gm_higher) == winner_text(
            ancient_safe,
            modern_safe,
            !ancient_gm_higher,
        ),
        !ancient_safe && !modern_safe ==> remark_text(ancient_safe, modern_safe) == BOTH_SUNK_REMARK@,
{
    reveal_strlit("古船（GM更高）");
    reveal_strlit("现代船（GM更高）");
    reveal_strlit("古船");
    reveal_strlit("现代船");
    reveal_strlit("均沉没");
    assert(ANCIENT_HIGHER_GM@.len() == 8);
    assert(MODERN_HIGHER_GM@.len() == 9);
    assert(ANCIENT_SHIP@.len() == 2);
    assert(MODERN_SHIP@.len() == 3);
    assert(BOTH_SUNK@.len() == 3);
    assert(MODERN_SHIP@[0] != BOTH_SUNK@[0]);
}

/// The closing remark credits exactly the ships that stay safe: both, one of
/// them by name, or neither when the damage is beyond both.
pub proof fn law_remark_credits_the_safe_ships(ancient_safe: bool, modern_safe: bool)
    ensures
        remark_text(ancient_safe, modern_safe) == BOTH_SAFE_REMARK@ <==> ancient_safe && modern_safe,
        remark_text(ancient_safe, modern_safe) == ANCIENT_SAFE_REMARK@ <==> ancient_safe && !modern_safe,
        remark_text(ancient_safe, modern_safe) == MODERN_SAFE_REMARK@ <==> !ancient_safe && modern_safe,
        remark_text(ancient_safe, modern_safe) == BOTH_SUNK_REMARK@ <==> !ancient_safe && !modern_safe,
{
    reveal_strlit("两者均保持安全，体现了水密隔舱技术的有效性。");
    reveal_strlit("古船设计在该场景下表现更优，证明古代水密隔舱技术的先进性。");
    reveal_strlit("现代船凭借双层底、边舱等额外设计表现更优。");
    reveal_strlit("该破损程度超出了两船的抗沉极限。");
    assert(BOTH_SAFE_REMARK@[0] != ANCIENT_SAFE_REMARK@[0]);
    assert(BOTH_SAFE_REMARK@[0] != MODERN_SAFE_REMARK@[0]);
    assert(BOTH_SAFE_REMARK@[0] != BOTH_SUNK_REMARK@[0]);
    assert(ANCIENT_SAFE_REMARK@[0] != MODERN_SAFE_REMARK@[0]);
    assert(ANCIENT_SAFE_REMARK@[0] != BOTH_SUNK_REMARK@[0]);
    assert(MODERN_SAFE_REMARK@[0] != BOTH_SUNK_REMARK@[0]);
}

/// Start of the error for an unknown ancient ship.
pub const ANCIENT_NOT_FOUND: &'static str = "Ancient ship not found: ";

/// Start of the error for an unknown modern ship.
pub const MODERN_NOT_FOUND: &'static str = "Modern ship not found: ";

/// Finds the two ships of an era comparison in the catalogue: the ancient
/// ship is looked up first, and the first one missing is named in the error.
pub fn era_ship_positions(catalogue_ids: &Vec<String>, request: &EraComparisonRequest) -> (found:
    Result<(usize, usize), String>)
    ensures
        match found {
            Ok((a, m)) => is_first_match(
                id_texts(catalogue_ids@),
                request.ancient_ship_id@,
                Some(a),
            ) && is_first_match(id_texts(catalogue_ids@), request.modern_ship_id@, Some(m)),
            Err(text) => if is_first_match(
                id_texts(catalogue_ids@),
                request.ancient_ship_id@,
                None,
            ) {
                text@ == ANCIENT_NOT_FOUND@ + request.ancient_ship_id@
            } else {
                is_first_match(id_texts(catalogue_ids@), request.modern_ship_id@, None) && text@
                    == MODERN_NOT_FOUND@ + request.modern_ship_id@
            },
        },
{
    let ancient = find_ship(catalogue_ids, &request.ancient_ship_id);
    let a = match ancient {
        Some(a) => a,
        None => {
            let mut text = String::from_str(ANCIENT_NOT_FOUND);
            text.append(request.ancient_ship_id.as_str());
            return Err(text);
        },
    };
    let modern = find_ship(catalogue_ids, &request.modern_ship_id);
    match modern {
        Some(m) => Ok((a, m)),
        None => {
            let mut text = String::from_str(MODERN_NOT_FOUND);
            text.append(request.modern_ship_id.as_str());
            proof {
                assert(!is_first_match(id_texts(catalogue_ids@), request.ancient_ship_id@, None)) by {
                    assert(id_texts(catalogue_ids@)[a as int] == request.ancient_ship_id@);
                }
            }
            Err(text)
        },
    }
}

/// How watertight subdivision developed, from its invention to the SOLAS rules.
pub const ERA_TIMELINE: &'static str = "唐代（7-10世纪）中国发明水密隔舱技术 → 宋代（10-13世纪）技术成熟，泉州宋船为代表 → 18世纪欧洲开始引入水密舱壁概念 → 1914年SOLAS公约确立现代分舱标准 → 20世纪后期双层底、边舱等技术完善";

/// How the technique itself changed.
pub const TECHNOLOGY_EVOLUTION: &'static str = "水密隔舱技术从中国古代的经验性设计，发展为现代基于精确流体力学和稳性计算的科学化设计。核心思想一脉相承：将船体分隔为多个独立舱室，一舱或数舱进水不致沉没。现代技术增加了双层底、边舱、防撞舱壁等设计，计算方法更加精细。";

/// How the two eras approach the design.
pub const DESIGN_PHILOSOPHY_DIFFERENCE: &'static str = "古代设计注重实践经验和结构强度，隔舱布置兼顾抗沉性与使用功能；现代设计严格遵循SOLAS公约等国际规范，通过破损稳性计算确定分舱方案，追求安全性与经济性的平衡。";

/// The rules each era followed.
pub const REGULATORY_FRAMEWORK: &'static str = "古代无统一规范，凭工匠经验和传统；现代有IMO/SOLAS、IMO/MARPOL等国际公约，各国船级社（如CCS、LR、ABS）制定详细规范。";

/// The timeline of watertight subdivision.
pub fn get_era_timeline() -> (timeline: &'static str)
    ensures
        timeline@ == ERA_TIMELINE@,
{
    ERA_TIMELINE
}

} // verus!
