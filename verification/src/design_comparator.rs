//! The written conclusion of a comparison between ship designs.
use vstd::prelude::*;
use crate::ship_configs::{first_position, id_texts, is_first_match};

verus! {

/// Answer when fewer than two ships are compared.
pub const NEED_TWO_SHIPS: &'static str = "请选择至少两艘船舶进行对比";

/// Answer when the metrics give nothing to say.
pub const SEE_METRICS: &'static str = "对比分析完成，请查看详细指标。";

/// Opening of the sentence that names the most flood-resistant ship.
pub const BEST_SHIP_OPENING: &'static str = "综合抗沉性最优的是「";

/// Close of the sentence that names the most flood-resistant ship.
pub const BEST_SHIP_CLOSE: &'static str = "」。";

/// Sentence added when ancient and modern designs are compared.
pub const ACROSS_ERAS: &'static str = " 古代水密隔舱设计与现代SOLAS分舱标准一脉相承，核心思想都是通过横向水密舱壁将船体分隔为独立舱室。";

/// Sentence added when at least two ancient designs are compared.
pub const ANCIENT_TYPES: &'static str = " 中国古代四大船型（福船、沙船、广船、泉州宋船）各具特色：福船高大如楼适合深海作战，沙船平底浅吃水适合漕运，广船修长尖底适合远洋贸易。";

/// Name of the metric of flood resistance: how many compartments may flood.
pub const MAX_FLOODED_METRIC: &'static str = "最大可进水舱数";

/// Name of the metric of the number of compartments.
pub const COMPARTMENT_METRIC: &'static str = "隔舱数量";

/// The ship type of modern designs.
pub const MODERN_TYPE: &'static str = "modern";

/// Number of modern designs among the ship types.
pub open spec fn count_modern(ship_types: Seq<Seq<char>>) -> nat
    decreases ship_types.len(),
{
    if ship_types.len() == 0 {
        0
    } else {
        count_modern(ship_types.drop_last()) + if ship_types.last() == MODERN_TYPE@ {
            1nat
        } else {
            0nat
        }
    }
}

/// The sentences of a conclusion, before the fallback for an empty one.
pub open spec fn conclusion_sentences(ship_types: Seq<Seq<char>>, best_ship_name: Option<Seq<char>>) -> Seq<char> {
    let modern = count_modern(ship_types);
    let ancient = ship_types.len() - modern;
    (match best_ship_name {
        Some(name) => BEST_SHIP_OPENING@ + name + BEST_SHIP_CLOSE@,
        None => Seq::<char>::empty(),
    }) + (if ancient > 0 && modern > 0 {
        ACROSS_ERAS@
    } else {
        Seq::<char>::empty()
    }) + (if ancient >= 2 {
        ANCIENT_TYPES@
    } else {
        Seq::<char>::empty()
    })
}

/// The conclusion of a comparison of ships of the given types.
pub open spec fn conclusion_text(
    ship_types: Seq<Seq<char>>,
    metrics_found: bool,
    best_ship_name: Option<Seq<char>>,
) -> Seq<char> {
    if ship_types.len() < 2 {
        NEED_TWO_SHIPS@
    } else {
        let sentences = if metrics_found {
            conclusion_sentences(ship_types, best_ship_name)
        } else {
            Seq::<char>::empty()
        };
        if sentences.len() == 0 {
            SEE_METRICS@
        } else {
            sentences
        }
    }
}

/// The types of a list of ships, as text.
pub open spec fn type_texts(ship_types: Seq<String>) -> Seq<Seq<char>> {
    ship_types.map_values(|t: String| t@)
}

/// The name as text, if there is one.
pub open spec fn name_text(name: Option<String>) -> Option<Seq<char>> {
    match name {
        Some(n) => Some(n@),
        None => None,
    }
}

/// Writes the conclusion of a comparison of ships of the given types.
fn write_conclusion(
    ship_types: &Vec<String>,
    metrics_found: bool,
    best_ship_name: &Option<String>,
) -> (conclusion: String)
    ensures
        conclusion@ == conclusion_text(type_texts(ship_types@), metrics_found, name_text(*best_ship_name)),
{
    let ghost types = type_texts(ship_types@);
    if ship_types.len() < 2 {
        return String::from_str(NEED_TWO_SHIPS);
    }
    let mut conclusion = String::new();
    if metrics_found {
        let modern_type = String::from_str(MODERN_TYPE);
        let mut modern: usize = 0;
        let mut i: usize = 0;
        while i < ship_types.len()
            invariant
                i <= ship_types.len(),
                modern <= i,
                modern_type@ == MODERN_TYPE@,
                types == type_texts(ship_types@),
                modern == count_modern(types.take(i as int)),
            decreases ship_types.len() - i,
        {
            proof {
                assert(types.take(i + 1).drop_last() =~= types.take(i as int));
            }
            if ship_types[i] == modern_type {
                modern += 1;
            }
            i += 1;
        }
        proof {
            assert(types.take(ship_types.len() as int) =~= types);
        }
        let ancient = ship_types.len() - modern;
        match best_ship_name {
            Some(name) => {
                conclusion.append(BEST_SHIP_OPENING);
                conclusion.append(name.as_str());
                conclusion.append(BEST_SHIP_CLOSE);
            },
            None => {},
        }
        if ancient > 0 && modern > 0 {
            conclusion.append(ACROSS_ERAS);
        }
        if ancient >= 2 {
            conclusion.append(ANCIENT_TYPES);
        }
        proof {
            assert(conclusion@ =~= conclusion_sentences(types, name_text(*best_ship_name)));
        }
    }
    if conclusion.as_str().is_empty() {
        conclusion = String::from_str(SEE_METRICS);
    }
    conclusion
}

/// A compared ship, as the conclusion sees it.
#[derive(Clone, Debug)]
pub struct ComparedShip {
    pub ship_id: String,
    pub ship_name: String,
    pub ship_type: String,
}

/// The types of the compared ships, as text.
pub open spec fn ship_type_texts(ships: Seq<ComparedShip>) -> Seq<Seq<char>> {
    ships.map_values(|s: ComparedShip| s.ship_type@)
}

/// The metrics hold both flood resistance and the number of compartments.
pub open spec fn metrics_present(metric_names: Seq<Seq<char>>) -> bool {
    metric_names.contains(MAX_FLOODED_METRIC@) && metric_names.contains(COMPARTMENT_METRIC@)
}

/// The name of the first compared ship whose id is `id`.
pub open spec fn name_for_id(ships: Seq<ComparedShip>, id: Seq<char>) -> Option<Seq<char>>
    decreases ships.len(),
{
    if ships.len() == 0 {
        None
    } else if ships[0].ship_id@ == id {
        Some(ships[0].ship_name@)
    } else {
        name_for_id(ships.drop_first(), id)
    }
}

/// The name of the ship ranked first, when the ranking names a compared ship.
pub open spec fn best_name_of(ships: Seq<ComparedShip>, best_ship_id: Option<String>) -> Option<Seq<char>> {
    match best_ship_id {
        Some(id) => name_for_id(ships, id@),
        None => None,
    }
}

/// The first metric named `name`, if there is one.
pub fn find_metric(metric_names: &Vec<String>, name: &String) -> (found: Option<usize>)
    ensures
        is_first_match(id_texts(metric_names@), name@, found),
{
    first_position(metric_names, name)
}

/// Whether a metric named `name` is among `metric_names`.
fn has_metric(metric_names: &Vec<String>, name: &String) -> (found: bool)
    ensures
        found == id_texts(metric_names@).contains(name@),
{
    match find_metric(metric_names, name) {
        Some(i) => {
            assert(id_texts(metric_names@)[i as int] == name@);
            true
        },
        None => false,
    }
}

/// The name of the first ship whose id is `id`.
fn ship_name_for(ships: &Vec<ComparedShip>, id: &String) -> (name: Option<String>)
    ensures
        name_text(name) == name_for_id(ships@, id@),
{
    let mut i: usize = 0;
    assert(ships@.skip(0) =~= ships@);
    while i < ships.len()
        invariant
            i <= ships.len(),
            name_for_id(ships@, id@) == name_for_id(ships@.skip(i as int), id@),
        decreases ships.len() - i,
    {
        proof {
            assert(ships@.skip(i as int)[0] == ships@[i as int]);
            assert(ships@.skip(i as int).drop_first() =~= ships@.skip(i + 1));
        }
        if ships[i].ship_id == *id {
            return Some(ships[i].ship_name.clone());
        }
        i += 1;
    }
    proof {
        assert(ships@.skip(i as int).len() == 0);
    }
    None
}

/// Writes the conclusion of a comparison of `ships`.
///
/// `metric_names` are the names of the computed metrics, and `best_ship_id`
/// is the id that the flood-resistance metric ranks first, if any.
pub fn generate_comparison_conclusion(
    ships: &Vec<ComparedShip>,
    metric_names: &Vec<String>,
    best_ship_id: &Option<String>,
) -> (conclusion: String)
    ensures
        conclusion@ == conclusion_text(
            ship_type_texts(ships@),
            metrics_present(id_texts(metric_names@)),
            best_name_of(ships@, *best_ship_id),
        ),
{
    let mut ship_types: Vec<String> = Vec::new();
    let mut i: usize = 0;
    while i < ships.len()
        invariant
            i <= ships.len(),
            ship_types.len() == i,
            forall|k: int| 0 <= k < i ==> (#[trigger] ship_types@[k])@ == ships@[k].ship_type@,
        decreases ships.len() - i,
    {
        ship_types.push(ships[i].ship_type.clone());
        i += 1;
    }
    proof {
        assert(type_texts(ship_types@) =~= ship_type_texts(ships@));
    }
    let metrics_found = has_metric(metric_names, &String::from_str(MAX_FLOODED_METRIC)) && has_metric(
        metric_names,
        &String::from_str(COMPARTMENT_METRIC),
    );
    let best_ship_name = match best_ship_id {
        Some(id) => ship_name_for(ships, id),
        None => None,
    };
    write_conclusion(&ship_types, metrics_found, &best_ship_name)
}

/// The sentence that names the most flood-resistant ship, if one is named.
pub open spec fn best_ship_sentence(best_ship_name: Option<Seq<char>>) -> Seq<char> {
    match best_ship_name {
        Some(name) => BEST_SHIP_OPENING@ + name + BEST_SHIP_CLOSE@,
        None => Seq::<char>::empty(),
    }
}

/// `text` ends with `tail`.
pub open spec fn ends_with(text: Seq<char>, tail: Seq<char>) -> bool {
    text.len() >= tail.len() && text.subrange(text.len() - tail.len(), text.len() as int) == tail
}

/// `part` stands somewhere in `text`.
pub open spec fn contains_text(text: Seq<char>, part: Seq<char>) -> bool {
    exists|k: int| 0 <= k && k + part.len() <= text.len() && #[trigger] text.subrange(k, k + part.len()) == part
}

/// The modern designs and the others together make up all the ship types,
/// and some design is modern exactly when a modern one is counted.
proof fn lemma_modern_and_ancient_counts(ship_types: Seq<Seq<char>>)
    ensures
        count_modern(ship_types) + ship_types.filter(|t: Seq<char>| t != MODERN_TYPE@).len() == ship_types.len(),
        count_modern(ship_types) > 0 <==> ship_types.contains(MODERN_TYPE@),
    decreases ship_types.len(),
{
    reveal(Seq::filter);
    if ship_types.len() > 0 {
        let rest = ship_types.drop_last();
        lemma_modern_and_ancient_counts(rest);
        if rest.contains(MODERN_TYPE@) {
            let i = choose|i: int| 0 <= i < rest.len() && rest[i] == MODERN_TYPE@;
            assert(ship_types[i] == MODERN_TYPE@);
        }
        if ship_types.contains(MODERN_TYPE@) {
            let i = choose|i: int| 0 <= i < ship_types.len() && ship_types[i] == MODERN_TYPE@;
            if i < ship_types.len() - 1 {
                assert(rest[i] == MODERN_TYPE@);
            }
        }
        if ship_types.last() == MODERN_TYPE@ {
            assert(ship_types[ship_types.len() - 1] == MODERN_TYPE@);
        }
    }
}

/// With at least two ships and both metrics present, the conclusion is the
/// sentence on the best ship followed by: the sentence on continuity across
/// eras whenever a modern design is compared with at least one other, and
/// the sentence on the four ancient ship types whenever at least two
/// designs are not modern, each independently of the other.
pub proof fn law_conclusion_by_designs(ship_types: Seq<Seq<char>>, best_ship_name: Option<Seq<char>>)
    requires
        ship_types.len() >= 2,
    ensures
        ({
            let text = conclusion_text(ship_types, true, best_ship_name);
            let ancient = ship_types.filter(|t: Seq<char>| t != MODERN_TYPE@).len();
            let best = best_ship_sentence(best_ship_name);
            &&& !ship_types.contains(MODERN_TYPE@) ==> text == best + ANCIENT_TYPES@
            &&& ship_types.contains(MODERN_TYPE@) && ancient >= 2 ==> text == best + ACROSS_ERAS@ + ANCIENT_TYPES@
            &&& ship_types.contains(MODERN_TYPE@) && ancient == 1 ==> text == best + ACROSS_ERAS@
            &&& ship_types.contains(MODERN_TYPE@) && ancient == 0 ==> text == if best_ship_name is Some {
                best
            } else {
                SEE_METRICS@
            }
        }),
{
    lemma_modern_and_ancient_counts(ship_types);
    let ancient = ship_types.filter(|t: Seq<char>| t != MODERN_TYPE@).len();
    let best = best_ship_sentence(best_ship_name);
    let empty = Seq::<char>::empty();
    let sentences = conclusion_sentences(ship_types, best_ship_name);
    if !ship_types.contains(MODERN_TYPE@) {
        assert(sentences =~= best + ANCIENT_TYPES@);
    } else if ancient >= 2 {
        assert(sentences =~= best + ACROSS_ERAS@ + ANCIENT_TYPES@);
    } else if ancient == 1 {
        assert(sentences =~= best + ACROSS_ERAS@);
    } else {
        assert(sentences =~= best + empty + empty);
        assert(best + empty + empty =~= best);
    }
    reveal_strlit(" 古代水密隔舱设计与现代SOLAS分舱标准一脉相承，核心思想都是通过横向水密舱壁将船体分隔为独立舱室。");
    reveal_strlit(" 中国古代四大船型（福船、沙船、广船、泉州宋船）各具特色：福船高大如楼适合深海作战，沙船平底浅吃水适合漕运，广船修长尖底适合远洋贸易。");
    reveal_strlit("综合抗沉性最优的是「");
    assert(ACROSS_ERAS@.len() > 0);
    assert(ANCIENT_TYPES@.len() > 0);
    assert(BEST_SHIP_OPENING@.len() > 0);
}

/// With at least two ships and both metrics present, two or more designs
/// that are not modern make the conclusion end with the sentence on the four
/// ancient ship types, whether or not a modern ship is compared as well; and
/// a modern design compared with any other puts the sentence on continuity
/// across eras into the conclusion.
pub proof fn law_conclusion_names_its_sentences(ship_types: Seq<Seq<char>>, best_ship_name: Option<Seq<char>>)
    requires
        ship_types.len() >= 2,
    ensures
        ship_types.filter(|t: Seq<char>| t != MODERN_TYPE@).len() >= 2 ==> ends_with(
            conclusion_text(ship_types, true, best_ship_name),
            ANCIENT_TYPES@,
        ),
        ship_types.contains(MODERN_TYPE@) && (exists|i: int| 0 <= i < ship_types.len() && ship_types[i] != MODERN_TYPE@)
            ==> contains_text(conclusion_text(ship_types, true, best_ship_name), ACROSS_ERAS@),
        best_ship_name matches Some(name) ==> conclusion_text(ship_types, true, best_ship_name).subrange(
            0,
            (BEST_SHIP_OPENING@.len() + name.len() + BEST_SHIP_CLOSE@.len()) as int,
        ) == BEST_SHIP_OPENING@ + name + BEST_SHIP_CLOSE@,
{
    law_conclusion_by_designs(ship_types, best_ship_name);
    let text = conclusion_text(ship_types, true, best_ship_name);
    let ancient = ship_types.filter(|t: Seq<char>| t != MODERN_TYPE@).len();
    let best = best_ship_sentence(best_ship_name);
    if best_ship_name is Some {
        assert(text.subrange(0, best.len() as int) =~= best);
    }
    if ancient >= 2 {
        if ship_types.contains(MODERN_TYPE@) {
            assert(text.subrange(text.len() - ANCIENT_TYPES@.len(), text.len() as int) =~= ANCIENT_TYPES@);
        } else {
            assert(text.subrange(text.len() - ANCIENT_TYPES@.len(), text.len() as int) =~= ANCIENT_TYPES@);
        }
    }
    if ship_types.contains(MODERN_TYPE@) && (exists|i: int| 0 <= i < ship_types.len() && ship_types[i] != MODERN_TYPE@) {
        let i = choose|i: int| 0 <= i < ship_types.len() && ship_types[i] != MODERN_TYPE@;
        ship_types.lemma_filter_contains(|t: Seq<char>| t != MODERN_TYPE@, i);
        assert(ancient > 0);
        let k = best.len() as int;
        if ancient >= 2 {
            assert(text.subrange(k, k + ACROSS_ERAS@.len()) =~= ACROSS_ERAS@);
        } else {
            assert(text.subrange(k, k + ACROSS_ERAS@.len()) =~= ACROSS_ERAS@);
        }
    }
}

/// The ship named as best is the first compared ship that carries the
/// ranked id, and no ship is named when none carries it.
pub proof fn law_best_ship_is_first_with_id(ships: Seq<ComparedShip>, id: Seq<char>)
    ensures
        name_for_id(ships, id) is None <==> (forall|i: int| 0 <= i < ships.len() ==> #[trigger] ships[i].ship_id@ != id),
        name_for_id(ships, id) is Some ==> exists|i: int|
            0 <= i < ships.len() && #[trigger] ships[i].ship_id@ == id && name_for_id(ships, id) == Some(ships[i].ship_name@)
                && (forall|j: int| 0 <= j < i ==> #[trigger] ships[j].ship_id@ != id),
    decreases ships.len(),
{
    if ships.len() > 0 {
        let rest = ships.drop_first();
        law_best_ship_is_first_with_id(rest, id);
        if ships[0].ship_id@ == id {
            assert(ships[0].ship_id@ == id);
        } else {
            if forall|i: int| 0 <= i < rest.len() ==> #[trigger] rest[i].ship_id@ != id {
                assert forall|i: int| 0 <= i < ships.len() implies #[trigger] ships[i].ship_id@ != id by {
                    if i > 0 {
                        assert(ships[i] == rest[i - 1]);
                    }
                }
            } else {
                let r = choose|i: int| 0 <= i < rest.len() && #[trigger] rest[i].ship_id@ == id;
                assert(ships[r + 1] == rest[r]);
            }
            if name_for_id(ships, id) is Some {
                let r = choose|i: int|
                    0 <= i < rest.len() && #[trigger] rest[i].ship_id@ == id && name_for_id(rest, id) == Some(
                        rest[i].ship_name@,
                    ) && (forall|j: int| 0 <= j < i ==> #[trigger] rest[j].ship_id@ != id);
                assert(ships[r + 1] == rest[r]);
                assert forall|j: int| 0 <= j < r + 1 implies #[trigger] ships[j].ship_id@ != id by {
                    if j > 0 {
                        assert(ships[j] == rest[j - 1]);
                    }
                }
            }
        }
    }
}

/// Fewer than two ships always get the request for a second one, and a
/// comparison without both the flood-resistance and the compartment metrics
/// gets the pointer to the detailed metrics, whatever the ships are.
pub proof fn law_conclusion_without_comparison(
    ship_types: Seq<Seq<char>>,
    metrics_found: bool,
    best_ship_name: Option<Seq<char>>,
)
    ensures
        ship_types.len() < 2 ==> conclusion_text(ship_types, metrics_found, best_ship_name) == NEED_TWO_SHIPS@,
        ship_types.len() >= 2 && !metrics_found ==> conclusion_text(ship_types, metrics_found, best_ship_name)
            == SEE_METRICS@,
{
}

/// A conclusion is never empty.
pub proof fn law_conclusion_never_empty(
    ship_types: Seq<Seq<char>>,
    metrics_found: bool,
    best_ship_name: Option<Seq<char>>,
)
    ensures
        conclusion_text(ship_types, metrics_found, best_ship_name).len() > 0,
{
    reveal_strlit("请选择至少两艘船舶进行对比");
    reveal_strlit("对比分析完成，请查看详细指标。");
}

} // verus!
