use kcd_bilingual_generator_rust::text_table::LastTextValue;
use kcd_bilingual_generator_rust::merge_rules::{
    classify_file, combine, merge_rule, merge_rule_for, secondary_text_combined, text_is_present,
    text_with_fallback, FileKind, MISSING, SEPARATOR_NEWLINE, SEPARATOR_SLASH,
};

#[test]
fn separators_are_slash_and_escaped_newline() {
    assert_eq!(SEPARATOR_SLASH, "/");
    assert_eq!(SEPARATOR_NEWLINE, "\\n");
    assert_eq!(SEPARATOR_NEWLINE.chars().count(), 2);
    assert_eq!(MISSING, "MISSING");
}

#[test]
fn files_are_classified_by_name() {
    assert_eq!(classify_file("text_ui_menus.xml"), FileKind::Menus);
    assert_eq!(classify_file("text_ui_dialog.xml"), FileKind::Dialog);
    assert_eq!(classify_file("text_ui_items.xml"), FileKind::Items);
    assert_eq!(classify_file("text_ui_soul.xml"), FileKind::Soul);
    assert_eq!(classify_file("text_ui_quest.xml"), FileKind::Other);
    assert_eq!(classify_file("text_ui_tutorials.xml"), FileKind::Other);
    assert_eq!(classify_file("Text_ui_menus.xml"), FileKind::Other);
    assert_eq!(classify_file(""), FileKind::Other);
}

#[test]
fn presence_needs_a_text_other_than_the_sentinel() {
    assert!(text_is_present("Good day"));
    assert!(text_is_present("missing"));
    assert!(!text_is_present("MISSING"));
    assert!(!text_is_present(""));
}

#[test]
fn secondary_text_is_joined_only_where_present() {
    let primary = LastTextValue("Meč".to_string());
    assert_eq!(secondary_text_combined(&primary, "Sword", "/"), "Meč/Sword");
    assert_eq!(secondary_text_combined(&primary, "Sword", "\\n"), "Meč\\nSword");
    assert_eq!(secondary_text_combined(&primary, "MISSING", "/"), "Meč");
    assert_eq!(secondary_text_combined(&primary, "", "/"), "Meč");
    assert_eq!(combine("a", "b", " - "), "a - b");
}

#[test]
fn fallback_always_holds_the_separator() {
    assert_eq!(text_with_fallback("p", "s", "e", "/"), "p/s");
    assert_eq!(text_with_fallback("p", "MISSING", "e", "/"), "p/e");
    assert_eq!(text_with_fallback("p", "", "e", "/"), "p/e");
    assert_eq!(text_with_fallback("p", "MISSING", "MISSING", "\\n"), "p\\nMISSING");
}

#[test]
fn dialog_joins_primary_and_secondary_on_two_lines() {
    let merged = merge_rule("text_ui_dialog.xml", "greet_01", "Dobrý den", "Good day", "Good day");
    assert_eq!(merged, format!("{}{}{}", "Dobrý den", SEPARATOR_NEWLINE, "Good day"));
    assert_eq!(merged, "Dobrý den\\nGood day");
}

#[test]
fn dialog_falls_back_to_english() {
    assert_eq!(
        merge_rule("text_ui_dialog.xml", "greet_01", "Dobrý den", "MISSING", "Good day"),
        "Dobrý den\\nGood day"
    );
    assert_eq!(
        merge_rule("text_ui_dialog.xml", "greet_01", "Dobrý den", "MISSING", "MISSING"),
        "Dobrý den\\nMISSING"
    );
    assert_eq!(merge_rule("text_ui_dialog.xml", "greet_01", "", "MISSING", "MISSING"), "\\nMISSING");
}

#[test]
fn other_files_join_on_one_line_and_fall_back_to_english() {
    assert_eq!(merge_rule("text_ui_quest.xml", "q_1", "Úkol", "Quête", "Quest"), "Úkol/Quête");
    assert_eq!(merge_rule("text_ui_quest.xml", "q_1", "Úkol", "MISSING", "Quest"), "Úkol/Quest");
    assert_eq!(merge_rule("text_ui_tutorials.xml", "t_1", "Úkol", "MISSING", "MISSING"), "Úkol/MISSING");
    assert_eq!(merge_rule("anything.xml", "ui_helpoverlay", "abc", "def", "ghi"), "abc/def");
}

#[test]
fn menu_exception_keeps_primary_whatever_the_secondary() {
    assert_eq!(merge_rule("text_ui_menus.xml", "ui_state_health_desc", "Health", "Santé", "Health"), "Health");
    assert_eq!(merge_rule("text_ui_menus.xml", "ui_state_health_desc", "Health", "MISSING", "x"), "Health");
    let long = "A description of the health state that is long";
    assert_eq!(merge_rule("text_ui_menus.xml", "ui_state_health_desc", long, "Santé", "Health"), long);
    assert_eq!(merge_rule("text_ui_menus.xml", "ui_state_hunger_desc", long, "Faim", "Hunger"), long);
    assert_eq!(merge_rule("text_ui_menus.xml", "ui_DerivStat_MaxStamina_desc", long, "s", "e"), long);
    // Only the exact identifiers are excepted.
    assert_eq!(
        merge_rule("text_ui_menus.xml", "ui_state_health_desc2", "Health now", "Santé", "e"),
        "Health now/Santé"
    );
}

#[test]
fn menu_rules_apply_in_order() {
    let file = "text_ui_menus.xml";
    // The help overlay stays in the primary language, also where a later rule would apply.
    assert_eq!(merge_rule(file, "ui_helpoverlay_ui_loading", "Loading the help", "Aide", "e"), "Loading the help");
    // Loading screens and codex pages take two lines, whatever their length.
    assert_eq!(merge_rule(file, "ui_loading_tip", "Tip", "Astuce", "e"), "Tip\\nAstuce");
    assert_eq!(merge_rule(file, "x_codex_cont_3", "Tip", "MISSING", "e"), "Tip");
    assert_eq!(merge_rule(file, "x_codex_cont_3", "Tip", "", "e"), "Tip");
    // Up to four characters: primary only.
    assert_eq!(merge_rule(file, "ui_ok", "Okay", "D'accord", "e"), "Okay");
    assert_eq!(merge_rule(file, "ui_ok", "", "D'accord", "e"), "");
    // Five to nineteen characters: one line.
    assert_eq!(merge_rule(file, "ui_ok", "Okays", "D'accord", "e"), "Okays/D'accord");
    assert_eq!(merge_rule(file, "ui_ok", "1234567890123456789", "s", "e"), "1234567890123456789/s");
    // Twenty characters and more: two lines.
    assert_eq!(merge_rule(file, "ui_ok", "12345678901234567890", "s", "e"), "12345678901234567890\\ns");
    assert_eq!(merge_rule(file, "ui_ok", "12345678901234567890", "MISSING", "e"), "12345678901234567890");
}

#[test]
fn lengths_count_characters_not_bytes() {
    let file = "text_ui_menus.xml";
    // Four characters of three bytes each.
    assert_eq!(merge_rule(file, "ui_x", "生命健康", "Health", "e"), "生命健康");
    assert_eq!(merge_rule(file, "ui_x", "生命健康值", "Health", "e"), "生命健康值/Health");
    let nineteen = "一二三四五六七八九十一二三四五六七八九";
    let twenty = "一二三四五六七八九十一二三四五六七八九十";
    assert_eq!(nineteen.chars().count(), 19);
    assert_eq!(twenty.chars().count(), 20);
    assert_eq!(merge_rule(file, "ui_x", nineteen, "s", "e"), format!("{}/s", nineteen));
    assert_eq!(merge_rule(file, "ui_x", twenty, "s", "e"), format!("{}\\ns", twenty));
    // Seven characters decide between one line and two for items.
    assert_eq!(merge_rule("text_ui_items.xml", "item", "一二三四五六", "s", "e"), "一二三四五六/s");
    assert_eq!(merge_rule("text_ui_items.xml", "item", "一二三四五六七", "s", "e"), "一二三四五六七\\ns");
}

#[test]
fn scatter_first_step_keeps_primary() {
    let file = "text_ui_items.xml";
    assert_eq!(merge_rule(file, "sword_step_1_scatter", "S", "s", "e"), "S");
    assert_eq!(
        merge_rule(file, "sword_step_1_scatter", "A primary text of more than ten characters", "s", "e"),
        "A primary text of more than ten characters"
    );
    assert_eq!(merge_rule(file, "x_step_1_longWeak", "Long enough text", "s", "e"), "Long enough text");
    assert_eq!(merge_rule(file, "x_step_1_bane", "Long enough text", "s", "e"), "Long enough text");
}

#[test]
fn item_rules_apply_in_order() {
    let file = "text_ui_items.xml";
    // A later step with a text of ten characters or more stays in the primary language.
    assert_eq!(merge_rule(file, "potion_step_2", "1234567890", "s", "e"), "1234567890");
    assert_eq!(merge_rule(file, "potion_step_2", "123456789", "s", "e"), "123456789\\ns");
    // A first step of another recipe is merged.
    assert_eq!(merge_rule(file, "potion_step_1", "1234567890", "s", "e"), "1234567890\\ns");
    assert_eq!(merge_rule(file, "potion_step_1", "123456", "s", "e"), "123456/s");
    // Without a step: by length alone.
    assert_eq!(merge_rule(file, "sword", "1234567", "s", "e"), "1234567\\ns");
    assert_eq!(merge_rule(file, "sword", "123456", "s", "e"), "123456/s");
    assert_eq!(merge_rule(file, "sword", "123456", "MISSING", "e"), "123456");
    assert_eq!(merge_rule(file, "sword", "1234567", "", "e"), "1234567");
}

#[test]
fn soul_rules_apply_in_order() {
    let file = "text_ui_soul.xml";
    // Short texts share a line.
    assert_eq!(merge_rule(file, "x", "1234567", "s", "e"), "1234567/s");
    // The sentinel as primary text is not short.
    assert_eq!(merge_rule(file, "x", "MISSING", "s", "e"), "MISSING");
    // Stats may be up to twelve characters long.
    assert_eq!(merge_rule(file, "stat_strength", "123456789012", "s", "e"), "123456789012/s");
    assert_eq!(merge_rule(file, "stat_strength", "1234567890123", "s", "e"), "1234567890123");
    assert_eq!(merge_rule(file, "stat_x", "MISSING", "s", "e"), "MISSING/s");
    // Descriptions of buffs and perks take two lines.
    assert_eq!(
        merge_rule(file, "buff_alcoholism_level3_desc", "A long description", "s", "e"),
        "A long description\\ns"
    );
    assert_eq!(merge_rule(file, "buff_drunkenness_desc", "A long description", "s", "e"), "A long description");
    assert_eq!(merge_rule(file, "perk_sprinter_desc", "A long description", "s", "e"), "A long description\\ns");
    assert_eq!(merge_rule(file, "perk_sprinter_name", "A long description", "s", "e"), "A long description");
    assert_eq!(merge_rule(file, "perk_sprinter_desc", "A long description", "MISSING", "e"), "A long description");
    // Anything else stays in the primary language.
    assert_eq!(merge_rule(file, "skill_x", "A long description", "s", "e"), "A long description");
}

#[test]
fn merging_twice_gives_the_same_text() {
    let first = merge_rule("text_ui_soul.xml", "buff_a_desc", "Popis účinku", "Effect", "Effect");
    let second = merge_rule("text_ui_soul.xml", "buff_a_desc", "Popis účinku", "Effect", "Effect");
    assert_eq!(first, second);
    assert_eq!(first.as_bytes(), second.as_bytes());
    assert_eq!(
        merge_rule_for(FileKind::Soul, "buff_a_desc", "Popis účinku", "Effect", "Effect"),
        first
    );
}

fn present(text: &str) -> bool {
    text != "MISSING" && !text.is_empty()
}

fn joined(primary: &str, secondary: &str, separator: &str) -> String {
    if present(secondary) {
        format!("{}{}{}", primary, separator, secondary)
    } else {
        primary.to_string()
    }
}

fn expected(file: &str, id: &str, primary: &str, secondary: &str, english: &str) -> String {
    let length = primary.chars().count();
    match file {
        "text_ui_menus.xml" => {
            if id.contains("ui_helpoverlay") {
                primary.to_string()
            } else if id.contains("ui_loading") || id.contains("codex_cont") {
                joined(primary, secondary, "\\n")
            } else if length <= 4
                || ["ui_state_health_desc", "ui_state_hunger_desc", "ui_DerivStat_MaxStamina_desc"].contains(&id)
            {
                primary.to_string()
            } else if length >= 20 {
                joined(primary, secondary, "\\n")
            } else {
                joined(primary, secondary, "/")
            }
        }
        "text_ui_dialog.xml" => {
            format!("{}\\n{}", primary, if present(secondary) { secondary } else { english })
        }
        "text_ui_items.xml" => {
            if (id.contains("step") && !id.contains("_step_1") && length >= 10)
                || (id.contains("step_1")
                    && (id.contains("scatter") || id.contains("longWeak") || id.contains("bane")))
            {
                primary.to_string()
            } else if length >= 7 {
                joined(primary, secondary, "\\n")
            } else {
                joined(primary, secondary, "/")
            }
        }
        "text_ui_soul.xml" => {
            if (length <= 7 && primary != "MISSING") || (length <= 12 && id.contains("stat_")) {
                joined(primary, secondary, "/")
            } else if (id.contains("buff") && id.contains("desc") && !id.contains("drunkenness_desc"))
                || (id.contains("perk") && id.contains("_desc"))
            {
                joined(primary, secondary, "\\n")
            } else {
                primary.to_string()
            }
        }
        _ => format!("{}/{}", primary, if present(secondary) { secondary } else { english }),
    }
}

#[test]
fn rules_agree_with_the_table_on_a_grid_of_entries() {
    let files = [
        "text_ui_menus.xml",
        "text_ui_dialog.xml",
        "text_ui_items.xml",
        "text_ui_soul.xml",
        "text_ui_quest.xml",
        "text_ui_tutorials.xml",
        "",
    ];
    let ids = [
        "",
        "greet_01",
        "ui_helpoverlay_x",
        "x_ui_loading",
        "codex_cont",
        "ui_helpoverlay_codex_cont",
        "ui_state_health_desc",
        "ui_state_hunger_desc",
        "ui_DerivStat_MaxStamina_desc",
        "ui_state_health_descr",
        "step",
        "a_step_1",
        "a_step_12",
        "a_step_2",
        "step_1_scatter",
        "scatter_step_1",
        "x_step_1_longWeak",
        "x_step_1_longweak",
        "bane_x_step_10",
        "stat_agi",
        "xstat_",
        "buff_a_desc",
        "description_buff",
        "buff_drunkenness_desc",
        "perk_a_desc",
        "perk_desc",
        "perk_a",
        "buff_a",
    ];
    let primaries = [
        "",
        "a",
        "abcd",
        "abcde",
        "abcdef",
        "abcdefg",
        "abcdefgh",
        "abcdefghi",
        "abcdefghij",
        "abcdefghijkl",
        "abcdefghijklm",
        "abcdefghijklmnopqrs",
        "abcdefghijklmnopqrst",
        "abcdefghijklmnopqrstu",
        "MISSING",
        "生命健康",
        "生命健康值",
        "一二三四五六七",
        "一二三四五六七八九十一二",
        "一二三四五六七八九十一二三四五六七八九十",
    ];
    let secondaries = ["", "MISSING", "s", "missing", "第二"];
    let englishes = ["MISSING", "e", ""];
    let mut compared = 0;
    for file in files {
        for id in ids {
            for primary in primaries {
                for secondary in secondaries {
                    for english in englishes {
                        assert_eq!(
                            merge_rule(file, id, primary, secondary, english),
                            expected(file, id, primary, secondary, english),
                            "{:?}",
                            (file, id, primary, secondary, english)
                        );
                        compared += 1;
                    }
                }
            }
        }
    }
    assert_eq!(compared, 7 * 28 * 20 * 5 * 3);
}
