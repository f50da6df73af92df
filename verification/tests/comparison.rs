use backend::design_comparator::{find_metric, generate_comparison_conclusion, ComparedShip};
use backend::era_comparator::{get_era_timeline, scenario_remark, scenario_winner};

fn types(list: &[&str]) -> Vec<String> {
    list.iter().map(|s| s.to_string()).collect()
}

fn ship(id: &str, name: &str, ship_type: &str) -> ComparedShip {
    ComparedShip { ship_id: id.to_string(), ship_name: name.to_string(), ship_type: ship_type.to_string() }
}

fn all_metrics() -> Vec<String> {
    types(&["总长", "排水量", "隔舱数量", "平均舱长", "最大可进水舱数"])
}

#[test]
fn single_ship_asks_for_two() {
    let ships = vec![ship("quanzhou_song_001", "泉州宋船", "quanzhou")];
    let conclusion = generate_comparison_conclusion(&ships, &all_metrics(), &Some("quanzhou_song_001".to_string()));
    assert_eq!(conclusion, "请选择至少两艘船舶进行对比");
}

#[test]
fn no_ship_asks_for_two() {
    let conclusion = generate_comparison_conclusion(&Vec::new(), &all_metrics(), &None);
    assert_eq!(conclusion, "请选择至少两艘船舶进行对比");
}

#[test]
fn two_ancient_ships_name_the_best() {
    let ships = vec![ship("quanzhou_song_001", "泉州宋船", "quanzhou"), ship("fu_ship_001", "福船", "fu")];
    let conclusion = generate_comparison_conclusion(&ships, &all_metrics(), &Some("fu_ship_001".to_string()));
    assert!(conclusion.contains("最优"));
    assert_eq!(
        conclusion,
        "综合抗沉性最优的是「福船」。 中国古代四大船型（福船、沙船、广船、泉州宋船）各具特色：福船高大如楼适合深海作战，沙船平底浅吃水适合漕运，广船修长尖底适合远洋贸易。"
    );
}

#[test]
fn ancient_and_modern_mention_solas() {
    let ships = vec![ship("quanzhou_song_001", "泉州宋船", "quanzhou"), ship("modern_cargo_001", "现代货船", "modern")];
    let conclusion = generate_comparison_conclusion(&ships, &all_metrics(), &Some("modern_cargo_001".to_string()));
    assert!(conclusion.contains("SOLAS") || conclusion.contains("一脉相承"));
    assert!(conclusion.starts_with("综合抗沉性最优的是「现代货船」。"));
    assert!(!conclusion.contains("四大船型"));
}

#[test]
fn missing_metrics_give_fallback() {
    let ships = vec![ship("a", "甲", "quanzhou"), ship("b", "乙", "fu")];
    let conclusion = generate_comparison_conclusion(&ships, &types(&["总长", "最大可进水舱数"]), &Some("a".to_string()));
    assert_eq!(conclusion, "对比分析完成，请查看详细指标。");
}

#[test]
fn two_modern_ships_without_best_give_fallback() {
    let ships = vec![ship("m1", "一号", "modern"), ship("m2", "二号", "modern")];
    let conclusion = generate_comparison_conclusion(&ships, &all_metrics(), &None);
    assert_eq!(conclusion, "对比分析完成，请查看详细指标。");
}

#[test]
fn best_id_outside_the_comparison_names_no_ship() {
    let ships = vec![ship("m1", "一号", "modern"), ship("m2", "二号", "modern")];
    let conclusion = generate_comparison_conclusion(&ships, &all_metrics(), &Some("other".to_string()));
    assert_eq!(conclusion, "对比分析完成，请查看详细指标。");
}

#[test]
fn metrics_are_found_by_name() {
    assert_eq!(find_metric(&all_metrics(), &"隔舱数量".to_string()), Some(2));
    assert_eq!(find_metric(&all_metrics(), &"不存在的指标".to_string()), None);
}

#[test]
fn test_get_era_timeline() {
    let timeline = get_era_timeline();
    assert!(!timeline.is_empty());
    assert!(timeline.contains("唐代"));
    assert!(timeline.contains("SOLAS"));
}

#[test]
fn winner_labels() {
    assert_eq!(scenario_winner(true, true, true), "古船（GM更高）");
    assert_eq!(scenario_winner(true, true, false), "现代船（GM更高）");
    assert_eq!(scenario_winner(true, false, false), "古船");
    assert_eq!(scenario_winner(false, true, true), "现代船");
    assert_eq!(scenario_winner(false, false, true), "均沉没");
}

#[test]
fn remarks_follow_safety() {
    assert_eq!(scenario_remark(true, true), "两者均保持安全，体现了水密隔舱技术的有效性。");
    assert_eq!(scenario_remark(true, false), "古船设计在该场景下表现更优，证明古代水密隔舱技术的先进性。");
    assert_eq!(scenario_remark(false, true), "现代船凭借双层底、边舱等额外设计表现更优。");
    assert_eq!(scenario_remark(false, false), "该破损程度超出了两船的抗沉极限。");
}

use backend::era_comparator::era_ship_positions;
use backend::models::EraComparisonRequest;
use backend::ship_configs::{find_ship, select_ships};

fn catalogue() -> Vec<String> {
    types(&["quanzhou_song_001", "fu_ship_001", "sha_ship_001", "guang_ship_001", "modern_cargo_001"])
}

#[test]
fn find_ship_by_id() {
    assert_eq!(find_ship(&catalogue(), &"sha_ship_001".to_string()), Some(2));
    assert_eq!(find_ship(&catalogue(), &"nonexistent_ship_id".to_string()), None);
}

#[test]
fn find_ship_takes_first_match() {
    let ids = types(&["a", "b", "a"]);
    assert_eq!(find_ship(&ids, &"a".to_string()), Some(0));
}

#[test]
fn select_ships_keeps_catalogue_order() {
    let picked = select_ships(&catalogue(), &types(&["modern_cargo_001", "quanzhou_song_001", "quanzhou_song_001"]));
    assert_eq!(picked, vec![0, 4]);
}

#[test]
fn select_ships_ignores_unknown_ids() {
    assert!(select_ships(&catalogue(), &types(&["fake_ship_1", "fake_ship_2"])).is_empty());
    assert!(select_ships(&catalogue(), &Vec::new()).is_empty());
}

#[test]
fn era_ships_found() {
    let request = EraComparisonRequest {
        ancient_ship_id: "quanzhou_song_001".to_string(),
        modern_ship_id: "modern_cargo_001".to_string(),
    };
    assert_eq!(era_ship_positions(&catalogue(), &request), Ok((0, 4)));
}

#[test]
fn era_unknown_ancient_ship() {
    let request = EraComparisonRequest {
        ancient_ship_id: "fake_ship".to_string(),
        modern_ship_id: "also_fake".to_string(),
    };
    assert_eq!(era_ship_positions(&catalogue(), &request), Err("Ancient ship not found: fake_ship".to_string()));
}

#[test]
fn era_unknown_modern_ship() {
    let request = EraComparisonRequest {
        ancient_ship_id: "quanzhou_song_001".to_string(),
        modern_ship_id: "fake_ship".to_string(),
    };
    assert_eq!(era_ship_positions(&catalogue(), &request), Err("Modern ship not found: fake_ship".to_string()));
}

use backend::models::{fallback_characteristics, ShipCharacteristics};
use backend::ship_configs::{resolve_ship_identity, ShipDescriptionText};

#[test]
fn missing_description_fields_get_defaults() {
    let given = ShipDescriptionText {
        ship_id: None,
        ship_name: None,
        ship_type: None,
        dynasty: Some("宋代".to_string()),
        historical_description: None,
        compartment_count: None,
        compartment_names: None,
    };
    let identity = resolve_ship_identity(given, "quanzhou", "明代");
    assert_eq!(identity.ship_id, "unknown");
    assert_eq!(identity.ship_name, "未知船舶");
    assert_eq!(identity.ship_type, "quanzhou");
    assert_eq!(identity.dynasty, "宋代");
    assert_eq!(identity.historical_description, "中国古代水密隔舱海船");
    assert_eq!(identity.compartment_count, 13);
    assert!(identity.compartment_names.is_empty());
}

#[test]
fn given_description_fields_are_kept() {
    let given = ShipDescriptionText {
        ship_id: Some("fu_ship_001".to_string()),
        ship_name: Some("福船".to_string()),
        ship_type: Some("fu".to_string()),
        dynasty: None,
        historical_description: Some("明代福船".to_string()),
        compartment_count: Some(300),
        compartment_names: Some(types(&["艏舱", "艉舱"])),
    };
    let identity = resolve_ship_identity(given, "x", "明代");
    assert_eq!(identity.ship_id, "fu_ship_001");
    assert_eq!(identity.ship_name, "福船");
    assert_eq!(identity.ship_type, "fu");
    assert_eq!(identity.dynasty, "明代");
    assert_eq!(identity.historical_description, "明代福船");
    assert_eq!(identity.compartment_count, 44);
    assert_eq!(identity.compartment_names, types(&["艏舱", "艉舱"]));
}

#[test]
fn characteristics_defaults() {
    let empty = ShipCharacteristics::default();
    assert!(empty.hull_form.is_empty() && empty.primary_use.is_empty());
    assert_eq!(empty.max_safe_flooded, 0);
    let fallback = fallback_characteristics();
    assert_eq!(fallback.hull_form, "传统福船型");
    assert_eq!(fallback.primary_use, "远洋航行");
    assert_eq!(fallback.notable_feature, "水密隔舱");
    assert_eq!(fallback.max_safe_flooded, 3);
    assert!(!fallback.solas_compliant);
}
