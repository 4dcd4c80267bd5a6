use faster_chant::scheme::{to_pinyin_initials, HeroScheme, PanelGroup, TriggerQuotes};
use faster_chant::search::{build_rows, SearchPopup as FlatPopup};
use faster_chant::ui::search::{group_heroes, NavKey, PanelFocus, PopupAction, SearchPopup};

fn scheme(hero: &str, skin: Option<&str>) -> HeroScheme {
    let display = match skin {
        Some(s) => format!("{} {}", s, hero),
        None => hero.to_string(),
    };
    HeroScheme {
        hero_name: hero.to_string(),
        skin_name: skin.map(|s| s.to_string()),
        display_name: display,
        triggers: TriggerQuotes::default(),
        panels: vec![PanelGroup { name: "p".to_string(), lines: vec![] }],
    }
}

fn schemes() -> Vec<HeroScheme> {
    vec![
        scheme("Saber", Some("Lily")),
        scheme("Archer", None),
        scheme("Saber", None),
        scheme("Saber", Some("Alter")),
    ]
}

#[test]
fn rows_sorted_by_hero_then_default_skin_then_skin() {
    let owned = schemes();
    let refs: Vec<&HeroScheme> = owned.iter().collect();
    let rows = build_rows(&refs, "");
    let got: Vec<(&str, &str, usize)> =
        rows.iter().map(|r| (r.hero_name.as_str(), r.skin_name.as_str(), r.skin_count)).collect();
    assert_eq!(
        got,
        vec![("Archer", "原皮", 1), ("Saber", "原皮", 3), ("Saber", "Alter", 3), ("Saber", "Lily", 3)]
    );
}

#[test]
fn rows_filter_by_lowercased_query() {
    let owned = schemes();
    let refs: Vec<&HeroScheme> = owned.iter().collect();
    // The query is lower-cased; names are not.
    assert!(build_rows(&refs, "SABER").is_empty());
    let rows = build_rows(&refs, "Li");
    assert!(rows.is_empty());
    let rows = build_rows(&refs, "ly");
    assert_eq!(rows.len(), 1);
    assert_eq!(rows[0].display_name, "Lily Saber");
    let rows = build_rows(&refs, "LY");
    assert_eq!(rows.len(), 1);
    assert_eq!(rows[0].skin_name, "Lily");
}

#[test]
fn grouping_collects_skins_under_heroes() {
    let owned = schemes();
    let refs: Vec<&HeroScheme> = owned.iter().collect();
    let heroes = group_heroes(&refs, "");
    assert_eq!(heroes.len(), 2);
    assert_eq!(heroes[0].name, "Archer");
    assert_eq!(heroes[1].name, "Saber");
    let skins: Vec<&str> = heroes[1].skins.iter().map(|s| s.skin_name.as_str()).collect();
    assert_eq!(skins, vec!["原皮", "Alter", "Lily"]);
    assert_eq!(heroes[1].skins[1].display_name, "Alter Saber");
}

#[test]
fn popup_navigation_and_enter() {
    let owned = schemes();
    let refs: Vec<&HeroScheme> = owned.iter().collect();
    let mut st = SearchPopup::new();
    st.show(&refs);
    // One skin: Enter chooses it.
    match st.on_key(NavKey::Enter) {
        PopupAction::Confirm(n) => assert_eq!(n, "Archer"),
        other => panic!("unexpected {:?}", other),
    }
    assert!(matches!(st.on_key(NavKey::Up), PopupAction::Redraw));
    assert_eq!(st.hero_sel, 0);
    assert!(matches!(st.on_key(NavKey::Down), PopupAction::Redraw));
    assert_eq!(st.hero_sel, 1);
    assert!(matches!(st.on_key(NavKey::Down), PopupAction::Redraw));
    assert_eq!(st.hero_sel, 1);
    // Several skins: Enter moves to the skins.
    assert!(matches!(st.on_key(NavKey::Enter), PopupAction::Redraw));
    assert_eq!(st.focus, PanelFocus::Skin);
    assert!(matches!(st.on_key(NavKey::Down), PopupAction::Redraw));
    assert_eq!(st.skin_sel, 1);
    match st.on_char('\r', &refs) {
        PopupAction::Confirm(n) => assert_eq!(n, "Alter Saber"),
        other => panic!("unexpected {:?}", other),
    }
    assert!(matches!(st.on_key(NavKey::Escape), PopupAction::Redraw));
    assert_eq!(st.focus, PanelFocus::Hero);
    assert!(matches!(st.on_key(NavKey::Escape), PopupAction::Hide));
}

#[test]
fn popup_typing_filters() {
    let owned = schemes();
    let refs: Vec<&HeroScheme> = owned.iter().collect();
    let mut st = SearchPopup::new();
    st.show(&refs);
    assert!(matches!(st.on_char('a', &refs), PopupAction::Redraw));
    assert!(matches!(st.on_char('l', &refs), PopupAction::Redraw));
    assert_eq!(st.input, "al");
    // "al" occurs in no hero name or skin name as written.
    assert_eq!(st.heroes.len(), 0);
    assert!(matches!(st.on_char('\u{8}', &refs), PopupAction::Redraw));
    assert_eq!(st.input, "a");
    assert!(matches!(st.on_char('\u{7}', &refs), PopupAction::Nothing));
    assert!(matches!(st.on_char('\u{1b}', &refs), PopupAction::Hide));
}

#[test]
fn flat_search_state() {
    let owned = schemes();
    let refs: Vec<&HeroScheme> = owned.iter().collect();
    let mut st = FlatPopup::new();
    st.show(&refs);
    assert_eq!(st.rows.len(), 4);
    assert!(matches!(st.on_key(NavKey::Up), PopupAction::Nothing));
    assert!(matches!(st.on_key(NavKey::Down), PopupAction::Redraw));
    match st.on_key(NavKey::Enter) {
        PopupAction::Confirm(n) => assert_eq!(n, "Saber"),
        other => panic!("unexpected {:?}", other),
    }
    assert!(matches!(st.on_char('e', &refs), PopupAction::Redraw));
    assert_eq!(st.selected, 0);
    assert_eq!(st.rows.len(), 4);
    assert!(matches!(st.on_char('\u{1b}', &refs), PopupAction::Hide));
}

#[test]
fn two_column_paint_lines() {
    let owned = schemes();
    let refs: Vec<&HeroScheme> = owned.iter().collect();
    let mut st = SearchPopup::new();
    st.show(&refs);
    assert_eq!(st.input_line(), ("输入拼音首字母搜索...".to_string(), true));
    // Cursor on Archer: one line per hero, no skin column beyond Archer's skin.
    let got: Vec<(PanelFocus, usize, Option<String>, bool, bool)> = st
        .paint_rows()
        .into_iter()
        .map(|r| (r.column, r.line, r.text, r.active, r.striped))
        .collect();
    assert_eq!(
        got,
        vec![
            (PanelFocus::Hero, 0, Some("Archer".to_string()), true, false),
            (PanelFocus::Hero, 1, Some("Saber".to_string()), false, false),
            (PanelFocus::Skin, 0, Some("原皮".to_string()), false, true),
        ]
    );
    // Cursor on Saber: its three skins take three lines of the hero column.
    st.on_key(NavKey::Down);
    st.on_key(NavKey::Right);
    st.on_key(NavKey::Down);
    let got: Vec<(PanelFocus, usize, Option<String>, bool, bool)> = st
        .paint_rows()
        .into_iter()
        .map(|r| (r.column, r.line, r.text, r.active, r.striped))
        .collect();
    assert_eq!(
        got,
        vec![
            (PanelFocus::Hero, 0, Some("Archer".to_string()), false, true),
            (PanelFocus::Hero, 1, Some("Saber".to_string()), false, false),
            (PanelFocus::Hero, 2, None, false, true),
            (PanelFocus::Hero, 3, None, false, false),
            (PanelFocus::Skin, 1, Some("原皮".to_string()), false, true),
            (PanelFocus::Skin, 2, Some("Alter".to_string()), true, false),
            (PanelFocus::Skin, 3, Some("Lily".to_string()), false, true),
        ]
    );
    st.on_char('s', &refs);
    assert_eq!(st.input_line(), ("s".to_string(), false));
}

#[test]
fn flat_list_lines() {
    let owned = schemes();
    let refs: Vec<&HeroScheme> = owned.iter().collect();
    let mut st = FlatPopup::new();
    st.show(&refs);
    assert_eq!(st.input_line(), ("输入拼音首字母搜索...".to_string(), true));
    st.on_key(NavKey::Down);
    let got: Vec<(Option<String>, String, bool, bool)> = st
        .list_lines()
        .into_iter()
        .map(|l| (l.hero, l.skin, l.selected, l.striped))
        .collect();
    assert_eq!(
        got,
        vec![
            // A hero with only its default skin shows no skin text.
            (Some("Archer".to_string()), "".to_string(), false, true),
            (Some("Saber".to_string()), "原皮".to_string(), true, false),
            (None, "Alter".to_string(), false, true),
            (None, "Lily".to_string(), false, false),
        ]
    );
}

#[test]
fn typing_then_erasing_restores_the_list() {
    let owned = schemes();
    let refs: Vec<&HeroScheme> = owned.iter().collect();
    let mut st = SearchPopup::new();
    st.show(&refs);
    st.on_key(NavKey::Down);
    let before: Vec<String> = group_heroes(&refs, "").into_iter().map(|h| h.name).collect();
    assert!(matches!(st.on_char('z', &refs), PopupAction::Redraw));
    assert!(st.heroes.is_empty());
    assert!(matches!(st.on_char('\u{8}', &refs), PopupAction::Redraw));
    assert_eq!(st.input, "");
    let after: Vec<String> = st.heroes.iter().map(|h| h.name.clone()).collect();
    assert_eq!(after, before);
    assert_eq!(st.hero_sel, 0);

    let mut flat = FlatPopup::new();
    flat.show(&refs);
    flat.on_char('l', &refs);
    flat.on_char('\u{8}', &refs);
    assert_eq!(flat.input, "");
    assert_eq!(flat.rows.len(), 4);
    assert_eq!(flat.selected, 0);
}

#[test]
fn pinyin_initials_find_heroes_and_skins() {
    assert_eq!(to_pinyin_initials("绯村剑心"), "fcjx");
    assert_eq!(to_pinyin_initials("Saber"), "");
    let owned = vec![scheme("绯村剑心", Some("冲田总司")), scheme("卫宫", None)];
    let refs: Vec<&HeroScheme> = owned.iter().collect();
    let rows = build_rows(&refs, "FCJX");
    assert_eq!(rows.len(), 1);
    assert_eq!(rows[0].hero_name, "绯村剑心");
    // The flat list also looks at the skin's initials; the two-column list does not.
    assert_eq!(build_rows(&refs, "ctzs").len(), 1);
    assert!(group_heroes(&refs, "ctzs").is_empty());
    let heroes = group_heroes(&refs, "wg");
    assert_eq!(heroes.len(), 1);
    assert_eq!(heroes[0].name, "卫宫");
}

#[test]
fn skin_count_counts_all_the_heroes_skins() {
    let owned = vec![scheme("a", None), scheme("a", Some("b"))];
    let refs: Vec<&HeroScheme> = owned.iter().collect();
    let rows = build_rows(&refs, "b");
    assert_eq!(rows.len(), 1);
    assert_eq!(rows[0].skin_name, "b");
    assert_eq!(rows[0].skin_count, 2);
}
