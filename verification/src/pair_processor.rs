//! Merging the tables of one language pair into bilingual tables, file by file.

use crate::corpus::LanguageData;
use crate::index_map::Entries;
use crate::merge_rules::{
    classify_file, kind_of, merge_rule_for, merged_text_for, FileKind, MISSING, SEPARATOR_NEWLINE,
    SEPARATOR_SLASH,
};
use crate::text::{concat3, join_texts, join_with};
use crate::text_table::{lookup, TextTable};
use vstd::prelude::*;
use vstd::string::*;

verus! {

/// One row of a merged table.
#[derive(Debug)]
pub struct MergedRow {
    /// The entry identifier.
    pub id: String,
    /// The text in the primary language.
    pub primary: String,
    /// The merged text.
    pub combined: String,
}

/// The three cells of a merged row: identifier, primary text, merged text.
pub type RowCells = (Seq<char>, Seq<char>, Seq<char>);

impl View for MergedRow {
    type V = RowCells;

    open spec fn view(&self) -> RowCells {
        (self.id@, self.primary@, self.combined@)
    }
}

/// The cells of each row.
pub open spec fn rows_cells(rows: Seq<MergedRow>) -> Seq<RowCells> {
    Seq::new(rows.len(), |i: int| rows[i]@)
}

/// The entries of a table that may be absent: an absent table has none.
pub open spec fn entries_or_none(table: Option<&TextTable>) -> Entries {
    match table {
        Some(table) => table@,
        None => Seq::empty(),
    }
}

/// The text stored under `id`, or the sentinel where there is none.
pub open spec fn text_or_missing(entries: Entries, id: Seq<char>) -> Seq<char> {
    match lookup(entries, id) {
        Some(text) => text,
        None => MISSING@,
    }
}

/// The merged row of one primary entry.
pub open spec fn merged_row(
    kind: FileKind,
    entry: (Seq<char>, Seq<char>),
    secondary: Entries,
    english: Entries,
) -> RowCells {
    (
        entry.0,
        entry.1,
        merged_text_for(
            kind,
            entry.0,
            entry.1,
            text_or_missing(secondary, entry.0),
            text_or_missing(english, entry.0),
        ),
    )
}

/// The merged rows of a file: one for each primary entry, in the primary table's order.
pub open spec fn merged_rows(
    file_name: Seq<char>,
    primary: Entries,
    secondary: Entries,
    english: Entries,
) -> Seq<RowCells> {
    Seq::new(
        primary.len(),
        |i: int| merged_row(kind_of(file_name), primary[i], secondary, english),
    )
}

/// The rows of a merged file follow the primary table: there are as many rows as
/// primary entries, and the row at each place holds the identifier and the text of the
/// primary entry at that place.
pub proof fn lemma_rows_follow_primary(
    file_name: Seq<char>,
    primary: Entries,
    secondary: Entries,
    english: Entries,
    n: int,
)
    requires
        0 <= n < primary.len(),
    ensures
        merged_rows(file_name, primary, secondary, english).len() == primary.len(),
        merged_rows(file_name, primary, secondary, english)[n].0 == primary[n].0,
        merged_rows(file_name, primary, secondary, english)[n].1 == primary[n].1,
{
}

/// Where the secondary language has no table of a file, every entry of the file is
/// merged with the sentinel in place of the secondary text; in the dialogue table and
/// in tables without rules of their own the English text, or the sentinel, then
/// follows the separator.
pub proof fn lemma_absent_secondary_table(
    file_name: Seq<char>,
    primary: Entries,
    english: Entries,
    n: int,
)
    requires
        0 <= n < primary.len(),
    ensures
        merged_rows(file_name, primary, entries_or_none(None), english)[n].2 == merged_text_for(
            kind_of(file_name),
            primary[n].0,
            primary[n].1,
            MISSING@,
            text_or_missing(english, primary[n].0),
        ),
        kind_of(file_name) == FileKind::Dialog ==> merged_rows(
            file_name,
            primary,
            entries_or_none(None),
            english,
        )[n].2 == primary[n].1 + SEPARATOR_NEWLINE@ + text_or_missing(english, primary[n].0),
        kind_of(file_name) == FileKind::Other ==> merged_rows(
            file_name,
            primary,
            entries_or_none(None),
            english,
        )[n].2 == primary[n].1 + SEPARATOR_SLASH@ + text_or_missing(english, primary[n].0),
{
}

/// A row as it is written: three cells between row tags, nothing escaped.
pub open spec fn row_xml(row: RowCells) -> Seq<char> {
    "<Row><Cell>"@ + row.0 + "</Cell><Cell>"@ + row.1 + "</Cell><Cell>"@ + row.2
        + "</Cell></Row>"@
}

/// The rows as they are written, one per line.
pub open spec fn rows_xml(rows: Seq<RowCells>) -> Seq<char> {
    join_with(Seq::new(rows.len(), |i: int| row_xml(rows[i])), "\n"@)
}

/// A merged table as it is written: the rows between table tags, each on a line of
/// its own.
pub open spec fn table_xml(rows: Seq<RowCells>) -> Seq<char> {
    "<Table>\n"@ + rows_xml(rows) + "\n</Table>"@
}

/// The text stored under `id`, or the sentinel where there is none or no table.
pub fn text_or_sentinel<'a>(table: Option<&'a TextTable>, id: &str) -> (text: &'a str)
    ensures
        text@ == text_or_missing(entries_or_none(table), id@),
{
    match table {
        Some(table) => match table.text_of(id) {
            Some(text) => text.as_str(),
            None => MISSING,
        },
        None => MISSING,
    }
}

/// Merges the tables of one file. Each entry of the primary table gives one row, in
/// the primary table's order; the secondary and the English text are looked up by the
/// entry's identifier, and an absent table has no text for any identifier.
pub fn merge_tables(
    file_name: &str,
    primary: &TextTable,
    secondary: Option<&TextTable>,
    english: Option<&TextTable>,
) -> (rows: Vec<MergedRow>)
    ensures
        rows_cells(rows@) == merged_rows(
            file_name@,
            primary@,
            entries_or_none(secondary),
            entries_or_none(english),
        ),
        rows.len() == primary@.len(),
{
    let kind = classify_file(file_name);
    let count = primary.len();
    let mut rows: Vec<MergedRow> = Vec::new();
    let mut i: usize = 0;
    while i < count
        invariant
            i <= count,
            count == primary@.len(),
            kind == kind_of(file_name@),
            rows.len() == i,
            forall|k: int|
                0 <= k < i ==> (#[trigger] rows[k])@ == merged_row(
                    kind,
                    primary@[k],
                    entries_or_none(secondary),
                    entries_or_none(english),
                ),
        decreases count - i,
    {
        match primary.entry(i) {
            Some((id, text)) => {
                let second = text_or_sentinel(secondary, id.as_str());
                let fallback = text_or_sentinel(english, id.as_str());
                let combined = merge_rule_for(kind, id.as_str(), text.as_str(), second, fallback);
                rows.push(MergedRow { id: id.clone(), primary: text.clone(), combined });
            },
            None => {},
        }
        i += 1;
    }
    assert(rows_cells(rows@) =~= merged_rows(
        file_name@,
        primary@,
        entries_or_none(secondary),
        entries_or_none(english),
    ));
    rows
}

/// Writes one row.
pub fn row_to_xml(row: &MergedRow) -> (xml: String)
    ensures
        xml@ == row_xml(row@),
{
    let mut xml = "<Row><Cell>".to_owned();
    xml.append(row.id.as_str());
    xml.append("</Cell><Cell>");
    xml.append(row.primary.as_str());
    xml.append("</Cell><Cell>");
    xml.append(row.combined.as_str());
    xml.append("</Cell></Row>");
    xml
}

/// Writes a merged table.
pub fn rows_to_xml(rows: &Vec<MergedRow>) -> (xml: String)
    ensures
        xml@ == table_xml(rows_cells(rows@)),
{
    let mut lines: Vec<String> = Vec::new();
    let mut i: usize = 0;
    while i < rows.len()
        invariant
            i <= rows.len(),
            lines.len() == i,
            forall|k: int| 0 <= k < i ==> (#[trigger] lines[k])@ == row_xml(rows[k]@),
        decreases rows.len() - i,
    {
        lines.push(row_to_xml(&rows[i]));
        i += 1;
    }
    assert(lines.deep_view() =~= Seq::new(
        rows_cells(rows@).len(),
        |i: int| row_xml(rows_cells(rows@)[i]),
    ));
    let body = join_texts(&lines, "\n");
    concat3("<Table>\n", body.as_str(), "\n</Table>")
}

/// One merged table, ready to be written under its file name.
#[derive(Debug)]
pub struct GeneratedXml {
    /// The name of the table file.
    pub file_name: String,
    /// The merged table as text.
    pub content: String,
}

impl View for GeneratedXml {
    type V = (Seq<char>, Seq<char>);

    open spec fn view(&self) -> (Seq<char>, Seq<char>) {
        (self.file_name@, self.content@)
    }
}

/// What processing one language pair gives: where its files go, and the files.
#[derive(Debug)]
pub struct PairOutput {
    /// The folder of the pair, below the working directory.
    pub output_dir: String,
    /// The name of the archive that the files are packed into.
    pub pak_name: String,
    /// The merged tables, in the order of the managed files.
    pub files: Vec<GeneratedXml>,
    /// The managed files that the primary language has no table of.
    pub skipped: Vec<String>,
}

/// The folder below the working directory that holds the folders of all pairs.
pub const OUTPUT_FOLDER: &'static str = "bilingual_xml";

/// The folder that holds the archives, in the game's folder as in the folder of a pair.
pub const LOCALIZATION_FOLDER: &'static str = "Localization";

/// File names with contents.
pub open spec fn files_view(files: Seq<GeneratedXml>) -> Seq<(Seq<char>, Seq<char>)> {
    Seq::new(files.len(), |i: int| files[i]@)
}

/// The name of the folder of a pair.
pub open spec fn pair_folder(
    primary_language: Seq<char>,
    secondary_language: Seq<char>,
) -> Seq<char> {
    primary_language + " + "@ + secondary_language
}

/// The folder that the files of a pair go to, below the working directory: the pair's
/// folder in the output folder, and the localization folder in it, parted by slashes.
pub open spec fn pair_output_dir(
    primary_language: Seq<char>,
    secondary_language: Seq<char>,
) -> Seq<char> {
    OUTPUT_FOLDER@ + "/"@ + pair_folder(primary_language, secondary_language) + "/"@
        + LOCALIZATION_FOLDER@
}

/// The name of the archive of a language.
pub open spec fn pak_file_name(language: Seq<char>) -> Seq<char> {
    language + "_xml.pak"@
}

/// The entries of the table of `file_name`, none where the language has no such table.
pub open spec fn table_or_none(data: Map<Seq<char>, Entries>, file_name: Seq<char>) -> Entries {
    if data.contains_key(file_name) {
        data[file_name]
    } else {
        Seq::empty()
    }
}

/// The merged table of one file as text.
pub open spec fn file_xml(
    file_name: Seq<char>,
    primary: Map<Seq<char>, Entries>,
    secondary: Map<Seq<char>, Entries>,
    english: Map<Seq<char>, Entries>,
) -> Seq<char> {
    table_xml(
        merged_rows(
            file_name,
            table_or_none(primary, file_name),
            table_or_none(secondary, file_name),
            table_or_none(english, file_name),
        ),
    )
}

/// The merged tables of a pair: one for each managed file that the primary language
/// has a table of, in the order of the managed files.
pub open spec fn generated_files(
    files: Seq<Seq<char>>,
    primary: Map<Seq<char>, Entries>,
    secondary: Map<Seq<char>, Entries>,
    english: Map<Seq<char>, Entries>,
) -> Seq<(Seq<char>, Seq<char>)>
    decreases files.len(),
{
    if files.len() == 0 {
        Seq::empty()
    } else {
        let earlier = generated_files(files.drop_last(), primary, secondary, english);
        let file = files.last();
        if primary.contains_key(file) {
            earlier.push((file, file_xml(file, primary, secondary, english)))
        } else {
            earlier
        }
    }
}

/// The managed files that the primary language has no table of, in their order.
pub open spec fn skipped_files(
    files: Seq<Seq<char>>,
    primary: Map<Seq<char>, Entries>,
) -> Seq<Seq<char>>
    decreases files.len(),
{
    if files.len() == 0 {
        Seq::empty()
    } else {
        let earlier = skipped_files(files.drop_last(), primary);
        if primary.contains_key(files.last()) {
            earlier
        } else {
            earlier.push(files.last())
        }
    }
}

/// Each managed file is either merged or skipped.
pub proof fn lemma_merged_or_skipped(
    files: Seq<Seq<char>>,
    primary: Map<Seq<char>, Entries>,
    secondary: Map<Seq<char>, Entries>,
    english: Map<Seq<char>, Entries>,
)
    ensures
        generated_files(files, primary, secondary, english).len() + skipped_files(
            files,
            primary,
        ).len() == files.len(),
    decreases files.len(),
{
    if files.len() > 0 {
        lemma_merged_or_skipped(files.drop_last(), primary, secondary, english);
    }
}

/// The name of the archive of a language.
pub fn pak_name_of(language: &str) -> (name: String)
    ensures
        name@ == pak_file_name(language@),
{
    let mut name = language.to_owned();
    name.append("_xml.pak");
    name
}

/// The name of the folder of a pair.
pub fn pair_folder_name(primary_language: &str, secondary_language: &str) -> (folder: String)
    ensures
        folder@ == pair_folder(primary_language@, secondary_language@),
{
    let mut folder = primary_language.to_owned();
    folder.append(" + ");
    folder.append(secondary_language);
    folder
}

/// The folder that the files of a pair go to, below the working directory.
pub fn output_dir_of(primary_language: &str, secondary_language: &str) -> (dir: String)
    ensures
        dir@ == pair_output_dir(primary_language@, secondary_language@),
{
    let folder = pair_folder_name(primary_language, secondary_language);
    let mut dir = OUTPUT_FOLDER.to_owned();
    dir.append("/");
    dir.append(folder.as_str());
    dir.append("/");
    dir.append(LOCALIZATION_FOLDER);
    dir
}

/// Processes one language pair: merges, for each managed file in turn, the primary
/// table with the secondary and the English table of that file. A file that the
/// primary language has no table of is skipped and listed; a file that the secondary
/// or the English language has no table of is merged as if that table were empty.
pub fn process_single_bilingual_sync(
    files_to_process: &Vec<String>,
    primary_language: &str,
    secondary_language: &str,
    primary_data: &LanguageData,
    secondary_data: &LanguageData,
    english_data: &LanguageData,
) -> (output: PairOutput)
    ensures
        output.output_dir@ == pair_output_dir(primary_language@, secondary_language@),
        output.pak_name@ == pak_file_name(primary_language@),
        files_view(output.files@) == generated_files(
            files_to_process.deep_view(),
            primary_data@,
            secondary_data@,
            english_data@,
        ),
        output.skipped.deep_view() == skipped_files(files_to_process.deep_view(), primary_data@),
{
    let mut files: Vec<GeneratedXml> = Vec::new();
    let mut skipped: Vec<String> = Vec::new();
    let ghost names = files_to_process.deep_view();
    let mut i: usize = 0;
    while i < files_to_process.len()
        invariant
            i <= files_to_process.len(),
            names == files_to_process.deep_view(),
            files_view(files@) == generated_files(
                names.take(i as int),
                primary_data@,
                secondary_data@,
                english_data@,
            ),
            skipped.deep_view() == skipped_files(names.take(i as int), primary_data@),
        decreases files_to_process.len() - i,
    {
        let file_name = &files_to_process[i];
        proof {
            assert(names.take(i + 1).drop_last() =~= names.take(i as int));
            assert(names.take(i + 1).last() == file_name@);
        }
        let ghost before_files = files_view(files@);
        let ghost before_skipped = skipped.deep_view();
        match primary_data.table(file_name.as_str()) {
            Some(primary) => {
                let rows = merge_tables(
                    file_name.as_str(),
                    primary,
                    secondary_data.table(file_name.as_str()),
                    english_data.table(file_name.as_str()),
                );
                let content = rows_to_xml(&rows);
                files.push(GeneratedXml { file_name: file_name.clone(), content });
                assert(files_view(files@) =~= before_files.push((file_name@, content@)));
            },
            None => {
                skipped.push(file_name.clone());
                assert(skipped.deep_view() =~= before_skipped.push(file_name@));
            },
        }
        i += 1;
    }
    assert(names.take(files_to_process.len() as int) =~= names);
    PairOutput {
        output_dir: output_dir_of(primary_language, secondary_language),
        pak_name: pak_name_of(primary_language),
        files,
        skipped,
    }
}

} // verus!
