//! The generator: the managed files, the languages to read, the tables that were read,
//! and the steps that lead from language archives to bilingual tables.

use crate::bilingual_generator_errors::BilingualGeneratorError;
use crate::bilingual_set::{read_bilingual_set, scan_lines, with_pair_languages};
use crate::corpus::{Corpus, Language, LanguageData, XmlFile};
use crate::index_map::Entries;
use crate::pair_processor::{
    files_view, generated_files, pair_output_dir, pak_file_name, process_single_bilingual_sync,
    skipped_files, PairOutput,
};
use crate::pipeline::ENGLISH;
use crate::table_parser::{fault_message, parse_text_table, table_of_events};
use crate::xml_reader::document_events;
use vstd::prelude::*;
use vstd::string::*;

verus! {

/// What reading one member of a language archive gave.
#[derive(Debug)]
pub enum MemberRead {
    /// The member's content.
    Content(String),
    /// The archive has no such member.
    Missing,
    /// The member is there but could not be read as text.
    Unreadable,
}

/// One managed file as it was looked for in a language archive.
#[derive(Debug)]
pub struct ArchiveMember {
    /// The name of the file.
    pub file_name: String,
    /// What reading it gave.
    pub read: MemberRead,
}

/// One language archive as it was read.
#[derive(Debug)]
pub struct LanguageArchive {
    /// The language of the archive.
    pub language: String,
    /// The managed files as they were found in it; nothing where the archive could
    /// not be opened.
    pub members: Option<Vec<ArchiveMember>>,
}

/// The names of the managed files: dialogues, quests, tutorials, stats and effects,
/// items, menus.
pub open spec fn managed_files() -> Seq<Seq<char>> {
    seq![
        "text_ui_dialog.xml"@,
        "text_ui_quest.xml"@,
        "text_ui_tutorials.xml"@,
        "text_ui_soul.xml"@,
        "text_ui_items.xml"@,
        "text_ui_menus.xml"@,
    ]
}

/// The languages that are read where the bilingual set names no others.
pub open spec fn default_languages() -> Seq<Seq<char>> {
    seq!["Chineses"@, "English"@]
}

/// A member that ends the reading of its archive: one that could not be read, or whose
/// content is no table.
pub open spec fn member_fails(member: ArchiveMember) -> bool {
    match member.read {
        MemberRead::Content(content) => table_of_events(document_events(content@)) is Err,
        MemberRead::Missing => false,
        MemberRead::Unreadable => true,
    }
}

/// The tables of the members that hold one, by file name. A later member of the same
/// name takes the place of an earlier one; a missing member leaves no table.
pub open spec fn tables_of(members: Seq<ArchiveMember>) -> Map<Seq<char>, Entries>
    decreases members.len(),
{
    if members.len() == 0 {
        Map::empty()
    } else {
        let earlier = tables_of(members.drop_last());
        let member = members.last();
        match member.read {
            MemberRead::Content(content) => match table_of_events(document_events(content@)) {
                Ok(entries) => earlier.insert(member.file_name@, entries),
                Err(_) => earlier,
            },
            _ => earlier,
        }
    }
}

/// `error` is the error that the failing member `member` of the archive of `language`
/// is reported with.
pub open spec fn is_member_error(
    error: BilingualGeneratorError,
    member: ArchiveMember,
    language: Seq<char>,
) -> bool {
    match member.read {
        MemberRead::Content(content) => {
            &&& table_of_events(document_events(content@)) matches Err((kind, detail))
            &&& error matches BilingualGeneratorError::XmlProcessingFailed(message)
            &&& message@ == fault_message(kind, detail, member.file_name@, language)
        },
        MemberRead::Missing => false,
        MemberRead::Unreadable => error is PakExtractionFailed,
    }
}

/// `at` is the place of the first member that fails.
pub open spec fn is_first_failing_member(members: Seq<ArchiveMember>, at: int) -> bool {
    &&& 0 <= at < members.len()
    &&& member_fails(members[at])
    &&& forall|j: int| 0 <= j < at ==> !member_fails(#[trigger] members[j])
}

/// An archive that ends the reading: one that could not be opened, or with a member
/// that fails.
pub open spec fn archive_fails(archive: LanguageArchive) -> bool {
    match archive.members {
        Some(members) => exists|at: int| is_first_failing_member(members@, at),
        None => true,
    }
}

/// `error` is the error that the failing archive `archive` is reported with.
pub open spec fn is_archive_error(
    error: BilingualGeneratorError,
    archive: LanguageArchive,
) -> bool {
    match archive.members {
        Some(members) => exists|at: int|
            is_first_failing_member(members@, at) && is_member_error(
                error,
                members[at],
                archive.language@,
            ),
        None => error is PakExtractionFailed,
    }
}

/// The corpus after the tables of the archives were published, archive by archive.
pub open spec fn with_archives(
    corpus: Map<Seq<char>, Map<Seq<char>, Entries>>,
    archives: Seq<LanguageArchive>,
) -> Map<Seq<char>, Map<Seq<char>, Entries>>
    decreases archives.len(),
{
    if archives.len() == 0 {
        corpus
    } else {
        let earlier = with_archives(corpus, archives.drop_last());
        match archives.last().members {
            Some(members) => earlier.insert(archives.last().language@, tables_of(members@)),
            None => earlier,
        }
    }
}

/// The tables of the language `name`, none where the language was not read.
pub open spec fn language_or_none(
    corpus: Map<Seq<char>, Map<Seq<char>, Entries>>,
    name: Seq<char>,
) -> Map<Seq<char>, Entries> {
    if corpus.contains_key(name) {
        corpus[name]
    } else {
        Map::empty()
    }
}

/// Reads the tables of one language from the members of its archive, in their order.
/// A missing member is passed over. The first member that could not be read, or whose
/// content is no table, ends the reading with its error.
pub fn read_single_language_xmls_sync(
    language: &str,
    members: &Vec<ArchiveMember>,
) -> (read: Result<LanguageData, BilingualGeneratorError>)
    ensures
        match read {
            Ok(data) => data@ == tables_of(members@) && forall|i: int|
                0 <= i < members.len() ==> !member_fails(#[trigger] members[i]),
            Err(error) => exists|at: int|
                is_first_failing_member(members@, at) && is_member_error(
                    error,
                    members[at],
                    language@,
                ),
        },
{
    let mut data = LanguageData::new();
    let mut i: usize = 0;
    while i < members.len()
        invariant
            i <= members.len(),
            data@ == tables_of(members@.take(i as int)),
            forall|j: int| 0 <= j < i ==> !member_fails(#[trigger] members[j]),
        decreases members.len() - i,
    {
        proof {
            assert(members@.take(i + 1).drop_last() =~= members@.take(i as int));
            assert(members@.take(i + 1).last() == members[i as int]);
        }
        let member = &members[i];
        match &member.read {
            MemberRead::Content(content) => {
                match parse_text_table(content.as_str(), member.file_name.as_str(), language) {
                    Ok(table) => {
                        data.insert(XmlFile(member.file_name.clone()), table);
                    },
                    Err(error) => {
                        assert(is_first_failing_member(members@, i as int));
                        return Err(error);
                    },
                }
            },
            MemberRead::Missing => {},
            MemberRead::Unreadable => {
                assert(is_first_failing_member(members@, i as int));
                return Err(BilingualGeneratorError::PakExtractionFailed);
            },
        }
        i += 1;
    }
    assert(members@.take(members.len() as int) =~= members@);
    Ok(data)
}

/// Coordinates the generation of bilingual tables.
pub struct BilingualGenerator {
    /// The game's installation folder; empty where it was not found.
    pub game_path: String,
    /// The folder below which the output goes.
    pub working_dir: String,
    /// The names of the managed files.
    pub files_to_process: Vec<String>,
    /// The languages whose archives are read.
    pub language_to_process: Vec<String>,
    /// The tables that were read.
    pub all_data: Corpus,
}

impl BilingualGenerator {
    /// A generator for the six managed files and the two default languages, which has
    /// read nothing yet. Where no installation folder was found its path is empty.
    pub fn init(working_dir: String, game_path: Option<String>) -> (generator: Result<
        Self,
        BilingualGeneratorError,
    >)
        ensures
            generator matches Ok(made) && {
                &&& made.working_dir@ == working_dir@
                &&& made.game_path@ == (match game_path {
                    Some(path) => path@,
                    None => Seq::empty(),
                })
                &&& made.files_to_process.deep_view() == managed_files()
                &&& made.language_to_process.deep_view() == default_languages()
                &&& made.all_data@ == Map::<Seq<char>, Map<Seq<char>, Entries>>::empty()
            },
    {
        let mut files_to_process: Vec<String> = Vec::new();
        files_to_process.push("text_ui_dialog.xml".to_owned());
        files_to_process.push("text_ui_quest.xml".to_owned());
        files_to_process.push("text_ui_tutorials.xml".to_owned());
        files_to_process.push("text_ui_soul.xml".to_owned());
        files_to_process.push("text_ui_items.xml".to_owned());
        files_to_process.push("text_ui_menus.xml".to_owned());
        let mut language_to_process: Vec<String> = Vec::new();
        language_to_process.push("Chineses".to_owned());
        language_to_process.push("English".to_owned());
        let game_path = match game_path {
            Some(path) => path,
            None => String::new(),
        };
        assert(files_to_process.deep_view() =~= managed_files());
        assert(language_to_process.deep_view() =~= default_languages());
        Ok(
            BilingualGenerator {
                game_path,
                working_dir,
                files_to_process,
                language_to_process,
                all_data: Corpus::new(),
            },
        )
    }

    /// Reads the bilingual set from its lines. The languages of its pairs join the
    /// languages to read where they are not listed yet. The first line that is neither
    /// blank nor a pair ends the reading with an error that holds the line.
    pub fn acquire_bilingual_set(&mut self, lines: &Vec<String>) -> (set: Result<
        Vec<(String, String)>,
        BilingualGeneratorError,
    >)
        ensures
            final(self).language_to_process.deep_view() == with_pair_languages(
                old(self).language_to_process.deep_view(),
                scan_lines(lines.deep_view()).0,
            ),
            final(self).game_path == old(self).game_path,
            final(self).working_dir == old(self).working_dir,
            final(self).files_to_process == old(self).files_to_process,
            final(self).all_data == old(self).all_data,
            match set {
                Ok(pairs) => scan_lines(lines.deep_view()).1 is None && pairs.deep_view()
                    == scan_lines(lines.deep_view()).0,
                Err(error) => error matches BilingualGeneratorError::InvalidBilingualSet(line)
                    && scan_lines(lines.deep_view()).1 == Some(line@),
            },
    {
        read_bilingual_set(lines, &mut self.language_to_process)
    }

    /// Publishes the tables of the archives, archive by archive. The first archive
    /// that could not be opened, or has a member that fails, ends the reading with its
    /// error; the tables of the archives before it stay published.
    pub fn read_xml_from_paks(&mut self, archives: &Vec<LanguageArchive>) -> (read: Result<
        (),
        BilingualGeneratorError,
    >)
        ensures
            final(self).game_path == old(self).game_path,
            final(self).working_dir == old(self).working_dir,
            final(self).files_to_process == old(self).files_to_process,
            final(self).language_to_process == old(self).language_to_process,
            match read {
                Ok(_) => {
                    &&& forall|i: int|
                        0 <= i < archives.len() ==> !archive_fails(#[trigger] archives[i])
                    &&& final(self).all_data@ == with_archives(old(self).all_data@, archives@)
                },
                Err(error) => exists|at: int|
                    {
                        &&& 0 <= at < archives.len()
                        &&& forall|j: int| 0 <= j < at ==> !archive_fails(#[trigger] archives[j])
                        &&& archive_fails(archives[at])
                        &&& is_archive_error(error, archives[at])
                        &&& final(self).all_data@ == with_archives(
                            old(self).all_data@,
                            archives@.take(at),
                        )
                    },
            },
    {
        let mut i: usize = 0;
        while i < archives.len()
            invariant
                i <= archives.len(),
                self.game_path == old(self).game_path,
                self.working_dir == old(self).working_dir,
                self.files_to_process == old(self).files_to_process,
                self.language_to_process == old(self).language_to_process,
                self.all_data@ == with_archives(old(self).all_data@, archives@.take(i as int)),
                forall|j: int| 0 <= j < i ==> !archive_fails(#[trigger] archives[j]),
            decreases archives.len() - i,
        {
            proof {
                assert(archives@.take(i + 1).drop_last() =~= archives@.take(i as int));
                assert(archives@.take(i + 1).last() == archives[i as int]);
            }
            let archive = &archives[i];
            match &archive.members {
                Some(members) => {
                    match read_single_language_xmls_sync(archive.language.as_str(), members) {
                        Ok(data) => {
                            assert(!archive_fails(*archive)) by {
                                assert forall|at: int| !is_first_failing_member(members@, at) by {
                                    if 0 <= at < members.len() {
                                        assert(!member_fails(members[at]));
                                    }
                                }
                            }
                            self.all_data.insert(Language(archive.language.clone()), data);
                        },
                        Err(error) => {
                            return Err(error);
                        },
                    }
                },
                None => {
                    return Err(BilingualGeneratorError::PakExtractionFailed);
                },
            }
            i += 1;
        }
        assert(archives@.take(archives.len() as int) =~= archives@);
        Ok(())
    }

    /// Reads the table `xml_file` of `language` anew from `content` and publishes it in
    /// place of the table that was published for that file and language. Content that
    /// is no table is refused, and nothing changes.
    pub fn force_update_db_for(
        &mut self,
        language: &str,
        xml_file: &str,
        content: &str,
    ) -> (updated: Result<(), BilingualGeneratorError>)
        ensures
            final(self).game_path == old(self).game_path,
            final(self).working_dir == old(self).working_dir,
            final(self).files_to_process == old(self).files_to_process,
            final(self).language_to_process == old(self).language_to_process,
            match updated {
                Ok(_) => {
                    &&& table_of_events(document_events(content@)) matches Ok(entries)
                    &&& final(self).all_data@ == old(self).all_data@.insert(
                        language@,
                        language_or_none(old(self).all_data@, language@).insert(xml_file@, entries),
                    )
                },
                Err(error) => {
                    &&& table_of_events(document_events(content@)) matches Err((kind, detail))
                    &&& error matches BilingualGeneratorError::XmlProcessingFailed(message)
                    &&& message@ == fault_message(kind, detail, xml_file@, language@)
                    &&& final(self).all_data@ == old(self).all_data@
                },
            },
    {
        match parse_text_table(content, xml_file, language) {
            Ok(table) => {
                self.all_data.set_table(
                    Language(language.to_owned()),
                    XmlFile(xml_file.to_owned()),
                    table,
                );
                Ok(())
            },
            Err(error) => Err(error),
        }
    }

    /// Processes one language pair from the tables that were read: merges each managed
    /// file of which the primary language has a table. A language that was not read
    /// has no tables.
    pub fn process_single_bilingual(
        &self,
        primary_language: &str,
        secondary_language: &str,
    ) -> (output: PairOutput)
        ensures
            output.output_dir@ == pair_output_dir(primary_language@, secondary_language@),
            output.pak_name@ == pak_file_name(primary_language@),
            files_view(output.files@) == generated_files(
                self.files_to_process.deep_view(),
                language_or_none(self.all_data@, primary_language@),
                language_or_none(self.all_data@, secondary_language@),
                language_or_none(self.all_data@, ENGLISH@),
            ),
            output.skipped.deep_view() == skipped_files(
                self.files_to_process.deep_view(),
                language_or_none(self.all_data@, primary_language@),
            ),
    {
        let nothing = LanguageData::new();
        let primary = match self.all_data.language(primary_language) {
            Some(data) => data,
            None => &nothing,
        };
        let secondary = match self.all_data.language(secondary_language) {
            Some(data) => data,
            None => &nothing,
        };
        let english = match self.all_data.language(ENGLISH) {
            Some(data) => data,
            None => &nothing,
        };
        process_single_bilingual_sync(
            &self.files_to_process,
            primary_language,
            secondary_language,
            primary,
            secondary,
            english,
        )
    }
}

} // verus!
