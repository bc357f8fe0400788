use kawaii_lab::matcher::score_field;
use kawaii_lab::reply::{found_message, not_found_message};
use kawaii_lab::select::{score_group, select_best_group};
use kawaii_lab::types::{KawaiiLabGroup, KawaiiLabMember, MembersRequest};

fn member(name: &str, nickname: &str) -> KawaiiLabMember {
    KawaiiLabMember {
        name: name.to_string(),
        name_kana: String::new(),
        nickname: nickname.to_string(),
        color: "pink".to_string(),
        birthday: "4/1".to_string(),
        from: "Tokyo".to_string(),
        height: "155cm".to_string(),
        blood_type: None,
    }
}

fn group(name: &str, katakana: &str, common: &str, members: Vec<KawaiiLabMember>) -> KawaiiLabGroup {
    KawaiiLabGroup {
        name: name.to_string(),
        name_katakana: katakana.to_string(),
        common_name: common.to_string(),
        members,
    }
}

fn sample_catalog() -> Vec<KawaiiLabGroup> {
    vec![
        group(
            "FRUITS ZIPPER",
            "フルーツジッパー",
            "ふるっぱー",
            vec![member("月足天音", "あまねす"), member("鎮西寿々歌", "すずちゃん")],
        ),
        group(
            "CANDY TUNE",
            "キャンディーチューン",
            "きゃんちゅー",
            vec![member("村川緋杏", "びびあん"), member("宮野静", "しずりん")],
        ),
        group(
            "SWEET STEADY",
            "スウィートステディ",
            "すいすて",
            vec![member("奥田彩友", "あゆみん"), member("栗田なつか", "なっちゃん")],
        ),
        group(
            "CUTIE STREET",
            "キューティーストリート",
            "きゅーすと",
            vec![member("佐野愛花", "まなかぴ"), member("板倉可奈", "かなぽん")],
        ),
    ]
}

#[test]
fn scenario_nickname_finds_group() {
    let catalog = vec![
        group("FRUITS ZIPPER", "フルーツジッパー", "FZ", vec![member("Manaka", "Nakkun")]),
        group("Sakura Clover Z", "サクラクローバーゼット", "SCZ", vec![member("Amane", "Ama-chan")]),
    ];
    let found = select_best_group(&catalog, "Ama-chan");
    assert_eq!(found, Some(1));
    let g = &catalog[found.unwrap()];
    assert_eq!(g.members.len(), 1);
    let roster = "[{\"name\":\"Amane\",\"nickname\":\"Ama-chan\"}]";
    let text = found_message(&g.name, roster);
    assert_eq!(text, format!("members of Sakura Clover Z: {}", roster));
    assert!(text.contains("Sakura Clover Z"));
}

#[test]
fn scenario_unmatched_token_not_found() {
    let catalog = sample_catalog();
    let query = "xyzzy_unmatched_token";
    assert_eq!(select_best_group(&catalog, query), None);
    assert_eq!(not_found_message(query), "グループ xyzzy_unmatched_token は見つかりませんでした");
}

#[test]
fn scenario_exact_alias_beats_weak_nickname() {
    let catalog = vec![
        group("Sakura Clover Z", "サクラクローバーゼット", "SCZ", vec![member("Amane", "F-Zone")]),
        group("FRUITS ZIPPER", "フルーツジッパー", "FZ", vec![member("Manaka", "Nakkun")]),
    ];
    assert!(score_field("F-Zone", "FZ") > 0);
    assert!(score_field("FZ", "FZ") > score_field("F-Zone", "FZ"));
    assert_eq!(select_best_group(&catalog, "FZ"), Some(1));
}

#[test]
fn own_name_and_alias_select_their_group() {
    let catalog = sample_catalog();
    for (i, g) in catalog.iter().enumerate() {
        assert_eq!(select_best_group(&catalog, &g.name), Some(i));
        assert_eq!(select_best_group(&catalog, &g.common_name), Some(i));
        assert!(score_field(&g.name, &g.name) >= score_field(&g.name, &g.name[..3]));
    }
}

#[test]
fn member_name_and_nickname_select_their_group() {
    let catalog = sample_catalog();
    assert_eq!(select_best_group(&catalog, "宮野静"), Some(1));
    assert_eq!(select_best_group(&catalog, "なっちゃん"), Some(2));
    assert_eq!(select_best_group(&catalog, "かなぽん"), Some(3));
}

#[test]
fn absent_symbol_not_found() {
    let catalog = sample_catalog();
    assert_eq!(select_best_group(&catalog, "★"), None);
    assert_eq!(score_field("FRUITS ZIPPER", "★"), 0);
}

#[test]
fn empty_query_not_found() {
    let catalog = sample_catalog();
    assert_eq!(select_best_group(&catalog, ""), None);
    assert_eq!(score_field("FRUITS ZIPPER", ""), 0);
    assert_eq!(score_group(&catalog[0], ""), 0);
}

#[test]
fn empty_catalog_not_found() {
    let catalog: Vec<KawaiiLabGroup> = Vec::new();
    assert_eq!(select_best_group(&catalog, "FRUITS"), None);
}

#[test]
fn selection_is_deterministic() {
    let catalog = sample_catalog();
    let request = MembersRequest { query: "すいすて".to_string() };
    let first = select_best_group(&catalog, &request.query);
    let second = select_best_group(&catalog, &request.query);
    assert_eq!(first, second);
    assert_eq!(first, Some(2));
    let a = found_message(&catalog[2].name, "[]");
    let b = found_message(&catalog[2].name, "[]");
    assert_eq!(a, b);
}

#[test]
fn equal_scores_keep_the_earlier_group() {
    let one = group("Group One", "グループワン", "AB", vec![member("Yui", "yuipi")]);
    let two = group("Group Two", "グループツー", "AB", vec![member("Rio", "riopi")]);
    assert_eq!(score_group(&one, "AB"), score_group(&two, "AB"));
    assert!(score_group(&one, "AB") > 0);
    let catalog = vec![one.clone(), two.clone()];
    assert_eq!(select_best_group(&catalog, "AB"), Some(0));
    let swapped = vec![two, one];
    assert_eq!(select_best_group(&swapped, "AB"), Some(0));
    assert_eq!(swapped[0].name, "Group Two");
}

#[test]
fn exact_nickname_is_not_outvoted_by_many_partial_matches() {
    let many = group(
        "Many",
        "メニー",
        "mny",
        vec![member("Ruth", "robin"), member("Kai", "ruin"), member("Sae", "rain"), member("Eto", "raisin")],
    );
    let single = group("Single", "シングル", "sgl", vec![member("Hana", "rin")]);
    let catalog = vec![many, single];
    let partial = score_group(&catalog[0], "rin");
    let exact = score_group(&catalog[1], "rin");
    assert!(partial > 0);
    assert!(exact >= partial);
    assert_eq!(select_best_group(&catalog, "rin"), Some(1));
}

#[test]
fn group_score_is_the_best_field_score() {
    let catalog = sample_catalog();
    let g = &catalog[1];
    let q = "しず";
    let mut best = 0i64;
    best = best.max(score_field(&g.name, q)).max(score_field(&g.common_name, q));
    for m in &g.members {
        best = best.max(score_field(&m.name, q)).max(score_field(&m.nickname, q));
    }
    assert!(best > 0);
    assert_eq!(score_group(g, q), best);
    assert_eq!(score_group(g, q), score_field("しずりん", q));
}

#[test]
fn katakana_substring_matches() {
    assert!(score_field("フルーツジッパー", "ジッパー") > 0);
    assert!(score_field("キャンディーチューン", "チュー") > 0);
    assert!(score_field("キャンディーチューン", "ディチ") > 0);
    assert_eq!(score_field("キャンディーチューン", "ジッパー"), 0);
    assert_eq!(score_field("フルーツ", "ツフ"), 0);
}

#[test]
fn case_follows_the_query() {
    assert!(score_field("FRUITS ZIPPER", "zipper") > 0);
    assert_eq!(score_field("fruits zipper", "ZIPPER"), 0);
    assert!(score_field("FRUITS ZIPPER", "ZIPPER") > 0);
}

#[test]
fn messages_are_exact() {
    assert_eq!(found_message("CANDY TUNE", "[]"), "members of CANDY TUNE: []");
    assert_eq!(not_found_message(""), "グループ  は見つかりませんでした");
    assert_eq!(not_found_message("ふるっぱ"), "グループ ふるっぱ は見つかりませんでした");
}
