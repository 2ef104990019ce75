use kcd_bilingual_generator_rust::corpus::{LanguageData, XmlFile};
use kcd_bilingual_generator_rust::pair_processor::{
    merge_tables, output_dir_of, pair_folder_name, pak_name_of, process_single_bilingual_sync,
    row_to_xml, rows_to_xml, text_or_sentinel, MergedRow, LOCALIZATION_FOLDER, OUTPUT_FOLDER,
};
use kcd_bilingual_generator_rust::text_table::TextTable;

fn table(rows: &[(&str, &str)]) -> TextTable {
    let mut table = TextTable::new();
    for (id, text) in rows {
        table.add_row(&vec![id.to_string(), String::new(), text.to_string()]);
    }
    table
}

fn language(files: Vec<(&str, TextTable)>) -> LanguageData {
    let mut data = LanguageData::new();
    for (name, table) in files {
        data.insert(XmlFile(name.to_string()), table);
    }
    data
}

fn cells(rows: &[MergedRow]) -> Vec<(String, String, String)> {
    rows.iter().map(|row| (row.id.clone(), row.primary.clone(), row.combined.clone())).collect()
}

fn triple(id: &str, primary: &str, combined: &str) -> (String, String, String) {
    (id.to_string(), primary.to_string(), combined.to_string())
}

#[test]
fn lookups_default_to_the_sentinel() {
    let secondary = table(&[("a", "A")]);
    assert_eq!(text_or_sentinel(Some(&secondary), "a"), "A");
    assert_eq!(text_or_sentinel(Some(&secondary), "b"), "MISSING");
    assert_eq!(text_or_sentinel(None, "a"), "MISSING");
}

#[test]
fn rows_follow_the_primary_table() {
    let primary = table(&[("z_3", "tři"), ("a_1", "jedna"), ("m_2", "dva")]);
    let secondary = table(&[("a_1", "one"), ("m_2", "two"), ("z_3", "three"), ("extra", "x")]);
    let english = table(&[("a_1", "one")]);
    let rows = merge_tables("text_ui_quest.xml", &primary, Some(&secondary), Some(&english));
    assert_eq!(rows.len(), primary.len());
    assert_eq!(
        cells(&rows),
        vec![
            triple("z_3", "tři", "tři/three"),
            triple("a_1", "jedna", "jedna/one"),
            triple("m_2", "dva", "dva/two")
        ]
    );
    for (n, row) in rows.iter().enumerate() {
        assert_eq!(&row.id, primary.entry(n).unwrap().0);
    }
}

#[test]
fn missing_secondary_table_falls_back_for_every_entry() {
    let primary = table(&[("greet_01", "Dobrý den"), ("greet_02", "Sbohem")]);
    let english = table(&[("greet_01", "Good day")]);
    let rows = merge_tables("text_ui_dialog.xml", &primary, None, Some(&english));
    assert_eq!(
        cells(&rows),
        vec![
            triple("greet_01", "Dobrý den", "Dobrý den\\nGood day"),
            triple("greet_02", "Sbohem", "Sbohem\\nMISSING")
        ]
    );
    let rows = merge_tables("text_ui_dialog.xml", &primary, None, None);
    assert_eq!(
        cells(&rows),
        vec![
            triple("greet_01", "Dobrý den", "Dobrý den\\nMISSING"),
            triple("greet_02", "Sbohem", "Sbohem\\nMISSING")
        ]
    );
    // Under the rules that combine, a missing secondary text leaves the primary alone.
    let rows = merge_tables("text_ui_items.xml", &primary, None, Some(&english));
    assert_eq!(
        cells(&rows),
        vec![triple("greet_01", "Dobrý den", "Dobrý den"), triple("greet_02", "Sbohem", "Sbohem")]
    );
}

#[test]
fn empty_primary_table_gives_no_rows() {
    let rows = merge_tables("text_ui_dialog.xml", &TextTable::new(), Some(&table(&[("a", "b")])), None);
    assert_eq!(rows.len(), 0);
    assert_eq!(rows_to_xml(&rows), "<Table>\n\n</Table>");
}

#[test]
fn rows_are_written_one_per_line_between_table_tags() {
    let rows = vec![
        MergedRow { id: "a".to_string(), primary: "p".to_string(), combined: "p/s".to_string() },
        MergedRow { id: "b".to_string(), primary: "q".to_string(), combined: "q\\nt".to_string() },
    ];
    assert_eq!(row_to_xml(&rows[0]), "<Row><Cell>a</Cell><Cell>p</Cell><Cell>p/s</Cell></Row>");
    assert_eq!(
        rows_to_xml(&rows),
        "<Table>\n<Row><Cell>a</Cell><Cell>p</Cell><Cell>p/s</Cell></Row>\n\
         <Row><Cell>b</Cell><Cell>q</Cell><Cell>q\\nt</Cell></Row>\n</Table>"
    );
    assert_eq!(
        rows_to_xml(&rows[..1].iter().map(|row| MergedRow { id: row.id.clone(), primary: row.primary.clone(), combined: row.combined.clone() }).collect()),
        "<Table>\n<Row><Cell>a</Cell><Cell>p</Cell><Cell>p/s</Cell></Row>\n</Table>"
    );
}

#[test]
fn cells_are_written_as_they_are() {
    let row = MergedRow { id: "a&b".to_string(), primary: "<p>".to_string(), combined: "<p>/\"s\"".to_string() };
    assert_eq!(row_to_xml(&row), "<Row><Cell>a&b</Cell><Cell><p></Cell><Cell><p>/\"s\"</Cell></Row>");
}

#[test]
fn names_of_folder_and_archive_come_from_the_languages() {
    assert_eq!(pair_folder_name("Chineses", "English"), "Chineses + English");
    assert_eq!(output_dir_of("Chineses", "English"), "bilingual_xml/Chineses + English/Localization");
    assert_eq!(pak_name_of("Chineses"), "Chineses_xml.pak");
    assert_eq!(OUTPUT_FOLDER, "bilingual_xml");
    assert_eq!(LOCALIZATION_FOLDER, "Localization");
}

#[test]
fn pair_is_processed_file_by_file() {
    let files: Vec<String> = ["text_ui_dialog.xml", "text_ui_quest.xml", "text_ui_soul.xml", "text_ui_menus.xml"]
        .iter()
        .map(|name| name.to_string())
        .collect();
    let primary = language(vec![
        ("text_ui_dialog.xml", table(&[("greet_01", "Dobrý den")])),
        ("text_ui_soul.xml", table(&[("stat_str", "Síla"), ("buff_x_desc", "Dlouhý popis účinku")])),
        ("text_ui_menus.xml", TextTable::new()),
        ("unmanaged.xml", table(&[("a", "b")])),
    ]);
    let secondary = language(vec![
        ("text_ui_dialog.xml", table(&[("greet_01", "Bonjour")])),
        ("text_ui_quest.xml", table(&[("q", "quête")])),
    ]);
    let english = language(vec![("text_ui_soul.xml", table(&[("stat_str", "Strength")]))]);
    let output = process_single_bilingual_sync(&files, "Czech", "French", &primary, &secondary, &english);
    assert_eq!(output.output_dir, "bilingual_xml/Czech + French/Localization");
    assert_eq!(output.pak_name, "Czech_xml.pak");
    assert_eq!(output.skipped, vec!["text_ui_quest.xml".to_string()]);
    let written: Vec<(&str, &str)> =
        output.files.iter().map(|file| (file.file_name.as_str(), file.content.as_str())).collect();
    assert_eq!(
        written,
        vec![
            (
                "text_ui_dialog.xml",
                "<Table>\n<Row><Cell>greet_01</Cell><Cell>Dobrý den</Cell><Cell>Dobrý den\\nBonjour</Cell></Row>\n</Table>"
            ),
            (
                "text_ui_soul.xml",
                "<Table>\n<Row><Cell>stat_str</Cell><Cell>Síla</Cell><Cell>Síla</Cell></Row>\n\
                 <Row><Cell>buff_x_desc</Cell><Cell>Dlouhý popis účinku</Cell><Cell>Dlouhý popis účinku</Cell></Row>\n</Table>"
            ),
            ("text_ui_menus.xml", "<Table>\n\n</Table>"),
        ]
    );
}

#[test]
fn pair_without_primary_tables_gives_no_files() {
    let files = vec!["text_ui_dialog.xml".to_string(), "text_ui_quest.xml".to_string()];
    let nothing = LanguageData::new();
    let english = language(vec![("text_ui_dialog.xml", table(&[("a", "b")]))]);
    let output = process_single_bilingual_sync(&files, "Czech", "English", &nothing, &english, &english);
    assert!(output.files.is_empty());
    assert_eq!(output.skipped, files);
}
