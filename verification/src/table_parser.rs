//! Parsing one table-shaped document into a text table: rows of cells, of which the
//! first cell is the entry identifier and the third cell the text.

use crate::bilingual_generator_errors::BilingualGeneratorError;
use crate::index_map::{has_key, key_at, Entries};
use crate::text_table::{
    is_table, lemma_inserted_distinct, lemma_inserted_other_key, row_is_entry, with_row, TextTable,
    HEADER_MARKER,
};
use crate::xml_reader::{
    decode_text, document_events, is_event_stream, is_terminal, next_event, open_reader,
    pending_events, unescape_text, unescaped, XmlEvent,
};
use vstd::prelude::*;
use vstd::string::*;
use vstd::utf8::{decode_utf8, valid_utf8};

verus! {

/// The name of a row element: the bytes of `Row`.
pub open spec fn row_tag() -> Seq<u8> {
    seq![0x52u8, 0x6fu8, 0x77u8]
}

/// What is said of a text whose bytes are not valid UTF-8.
pub const BAD_ENCODING_DETAIL: &'static str = "invalid UTF-8 in text";

/// Why a document could not be parsed.
#[derive(Clone, Copy, Debug, PartialEq, Eq, Structural)]
pub enum FaultKind {
    /// The reader reported malformed XML.
    Malformed,
    /// A text inside a row holds an entity that cannot be replaced, or bytes that are
    /// no text.
    BadText,
}

/// A fault met while parsing, with the description of what was wrong.
#[derive(Debug)]
pub struct ParseFault {
    pub kind: FaultKind,
    pub detail: String,
}

/// Where the parser stands between two events.
pub struct RowState {
    /// The entries of the rows closed so far.
    pub entries: Entries,
    /// The cells of the row that is being read.
    pub cells: Seq<Seq<char>>,
    /// Whether a row is open.
    pub inside_row: bool,
}

/// The outcome of one event.
pub enum Step {
    /// Reading goes on from this state.
    Go(RowState),
    /// The document has ended.
    Stop,
    /// The document is refused.
    Fault(FaultKind, Seq<char>),
}

/// The state before the first event.
pub open spec fn start_state() -> RowState {
    RowState { entries: Seq::empty(), cells: Seq::empty(), inside_row: false }
}

/// The text of a cell: its bytes decoded, then unescaped.
pub open spec fn cell_text(raw: Seq<u8>) -> Result<Seq<char>, Seq<char>> {
    if valid_utf8(raw) {
        unescaped(decode_utf8(raw))
    } else {
        Err(BAD_ENCODING_DETAIL@)
    }
}

/// What one event does to the state. Opening a row empties the cells; a text inside
/// a row becomes its next cell; closing a row stores it and empties the cells. Tags
/// of other names, texts outside rows and all other events change nothing.
pub open spec fn step(state: RowState, event: XmlEvent) -> Step {
    match event {
        XmlEvent::Start(name) => if name@ == row_tag() {
            Step::Go(RowState { entries: state.entries, cells: Seq::empty(), inside_row: true })
        } else {
            Step::Go(state)
        },
        XmlEvent::End(name) => if name@ == row_tag() {
            Step::Go(
                RowState {
                    entries: with_row(state.entries, state.cells),
                    cells: Seq::empty(),
                    inside_row: false,
                },
            )
        } else {
            Step::Go(state)
        },
        XmlEvent::Text(raw) => if state.inside_row {
            match cell_text(raw@) {
                Ok(text) => Step::Go(
                    RowState {
                        entries: state.entries,
                        cells: state.cells.push(text),
                        inside_row: true,
                    },
                ),
                Err(detail) => Step::Fault(FaultKind::BadText, detail),
            }
        } else {
            Step::Go(state)
        },
        XmlEvent::Other => Step::Go(state),
        XmlEvent::Eof => Step::Stop,
        XmlEvent::Failed(detail) => Step::Fault(FaultKind::Malformed, detail@),
    }
}

/// The entries that a sequence of events leaves, read from `state` on, or the fault
/// that ends the reading. Events after the end of the document are not read; a row
/// that is still open when the events end is not stored.
pub open spec fn fold_events(state: RowState, events: Seq<XmlEvent>) -> Result<
    Entries,
    (FaultKind, Seq<char>),
>
    decreases events.len(),
{
    if events.len() == 0 {
        Ok(state.entries)
    } else {
        match step(state, events[0]) {
            Step::Go(next) => fold_events(next, events.skip(1)),
            Step::Stop => Ok(state.entries),
            Step::Fault(kind, detail) => Err((kind, detail)),
        }
    }
}

/// The entries of the table that a sequence of events describes.
pub open spec fn table_of_events(events: Seq<XmlEvent>) -> Result<
    Entries,
    (FaultKind, Seq<char>),
> {
    fold_events(start_state(), events)
}

/// The message of the error that a fault in the table `file_name` of `language`
/// is reported with.
pub open spec fn fault_message(
    kind: FaultKind,
    detail: Seq<char>,
    file_name: Seq<char>,
    language: Seq<char>,
) -> Seq<char> {
    let head = match kind {
        FaultKind::Malformed => "XML error in "@,
        FaultKind::BadText => "Invalid XML escape sequence in "@,
    };
    head + file_name + " for language "@ + language + ": "@ + detail
}

/// Whatever the events are, the entries they leave are those of a table: no
/// identifier occurs twice, and none is the header marker.
pub proof fn lemma_fold_events_is_table(state: RowState, events: Seq<XmlEvent>)
    requires
        is_table(state.entries),
    ensures
        fold_events(state, events) matches Ok(entries) ==> is_table(entries),
    decreases events.len(),
{
    if events.len() > 0 {
        match step(state, events[0]) {
            Step::Go(next) => {
                lemma_with_row_is_table(state.entries, state.cells);
                lemma_fold_events_is_table(next, events.skip(1));
            },
            Step::Stop => {},
            Step::Fault(_, _) => {},
        }
    }
}

/// Taking in a row leaves a table a table.
pub proof fn lemma_with_row_is_table(entries: Entries, cells: Seq<Seq<char>>)
    requires
        is_table(entries),
    ensures
        is_table(with_row(entries, cells)),
{
    if row_is_entry(cells) {
        lemma_inserted_distinct(entries, cells[0], cells[2]);
        lemma_inserted_other_key(entries, cells[0], cells[2], HEADER_MARKER@);
    }
}

/// A row whose first cell is the header marker never becomes an entry: it leaves the
/// entries as they are.
pub proof fn lemma_header_row_changes_nothing(entries: Entries, cells: Seq<Seq<char>>)
    requires
        cells.len() > 0,
        cells[0] == HEADER_MARKER@,
    ensures
        with_row(entries, cells) == entries,
{
}

/// Whatever events a document reads as, its table has no entry with the header marker
/// as its identifier, and no identifier twice.
pub proof fn lemma_no_header_entry(events: Seq<XmlEvent>)
    ensures
        table_of_events(events) matches Ok(table) ==> is_table(table) && !has_key(
            table,
            HEADER_MARKER@,
        ),
{
    assert(is_table(start_state().entries)) by {
        assert forall|at: int| !key_at(start_state().entries, HEADER_MARKER@, at) by {}
    }
    lemma_fold_events_is_table(start_state(), events);
}

/// Builds a table from the events of a document, one event at a time.
pub struct TableBuilder {
    table: TextTable,
    cells: Vec<String>,
    inside_row: bool,
}

impl View for TableBuilder {
    type V = RowState;

    closed spec fn view(&self) -> RowState {
        RowState {
            entries: self.table@,
            cells: self.cells.deep_view(),
            inside_row: self.inside_row,
        }
    }
}

/// Whether a tag name is that of a row.
fn is_row_tag(name: &Vec<u8>) -> (row: bool)
    ensures
        row == (name@ == row_tag()),
{
    let row = name.len() == 3 && name[0] == 0x52u8 && name[1] == 0x6fu8 && name[2] == 0x77u8;
    proof {
        if row {
            assert(name@ =~= row_tag());
        }
    }
    row
}

impl TableBuilder {
    /// A builder that has read nothing.
    pub fn new() -> (builder: Self)
        ensures
            builder@ == start_state(),
    {
        let builder = TableBuilder {
            table: TextTable::new(),
            cells: Vec::new(),
            inside_row: false,
        };
        assert(builder.cells.deep_view() =~= Seq::<Seq<char>>::empty());
        builder
    }

    /// Opens a row: the cells read so far are let go.
    pub fn open_row(&mut self)
        ensures
            final(self)@ == (RowState {
                entries: old(self)@.entries,
                cells: Seq::empty(),
                inside_row: true,
            }),
    {
        self.cells.clear();
        self.inside_row = true;
        assert(self.cells.deep_view() =~= Seq::<Seq<char>>::empty());
    }

    /// Takes in a text: inside a row it becomes the next cell, outside it is let go.
    pub fn add_text(&mut self, text: String)
        ensures
            final(self)@ == (if old(self)@.inside_row {
                RowState {
                    entries: old(self)@.entries,
                    cells: old(self)@.cells.push(text@),
                    inside_row: true,
                }
            } else {
                old(self)@
            }),
    {
        if self.inside_row {
            let ghost before = self.cells.deep_view();
            let ghost pushed = text@;
            self.cells.push(text);
            assert(self.cells.deep_view() =~= before.push(pushed));
        }
    }

    /// Closes a row: the cells read since it was opened are stored as one row.
    pub fn close_row(&mut self)
        ensures
            final(self)@ == (RowState {
                entries: with_row(old(self)@.entries, old(self)@.cells),
                cells: Seq::empty(),
                inside_row: false,
            }),
    {
        self.inside_row = false;
        self.table.add_row(&self.cells);
        self.cells.clear();
        assert(self.cells.deep_view() =~= Seq::<Seq<char>>::empty());
    }

    /// Takes in one event. Returns whether reading goes on, or the fault that the
    /// event stands for; on a fault nothing is changed.
    pub fn apply(&mut self, event: &XmlEvent) -> (outcome: Result<bool, ParseFault>)
        ensures
            match outcome {
                Ok(true) => step(old(self)@, *event) == Step::Go(final(self)@),
                Ok(false) => step(old(self)@, *event) == Step::Stop && final(self)@ == old(self)@,
                Err(fault) => step(old(self)@, *event) == Step::Fault(fault.kind, fault.detail@)
                    && final(self)@ == old(self)@,
            },
    {
        match event {
            XmlEvent::Start(name) => {
                if is_row_tag(name) {
                    self.open_row();
                }
                Ok(true)
            },
            XmlEvent::End(name) => {
                if is_row_tag(name) {
                    self.close_row();
                }
                Ok(true)
            },
            XmlEvent::Text(raw) => {
                if self.inside_row {
                    match decode_text(raw) {
                        Some(decoded) => match unescape_text(decoded.as_str()) {
                            Ok(text) => {
                                self.add_text(text);
                                Ok(true)
                            },
                            Err(detail) => Err(ParseFault { kind: FaultKind::BadText, detail }),
                        },
                        None => Err(
                            ParseFault {
                                kind: FaultKind::BadText,
                                detail: BAD_ENCODING_DETAIL.to_owned(),
                            },
                        ),
                    }
                } else {
                    Ok(true)
                }
            },
            XmlEvent::Other => Ok(true),
            XmlEvent::Eof => Ok(false),
            XmlEvent::Failed(detail) => Err(
                ParseFault { kind: FaultKind::Malformed, detail: detail.clone() },
            ),
        }
    }

    /// The table of the rows closed so far.
    pub fn finish(self) -> (table: TextTable)
        ensures
            table@ == self@.entries,
            is_table(table@),
    {
        let _ = self.table.len();
        self.table
    }
}

/// Builds the table that a sequence of events describes: reads the events up to the
/// end of the document, or up to the first event that stands for a fault.
pub fn table_from_events(events: &Vec<XmlEvent>) -> (built: Result<TextTable, ParseFault>)
    ensures
        match built {
            Ok(table) => table_of_events(events@) == Ok::<Entries, (FaultKind, Seq<char>)>(table@)
                && is_table(table@),
            Err(fault) => table_of_events(events@) == Err::<Entries, (FaultKind, Seq<char>)>(
                (fault.kind, fault.detail@),
            ),
        },
{
    let mut builder = TableBuilder::new();
    let mut i: usize = 0;
    assert(events@.skip(0) =~= events@);
    while i < events.len()
        invariant
            i <= events.len(),
            fold_events(builder@, events@.skip(i as int)) == table_of_events(events@),
        decreases events.len() - i,
    {
        proof {
            let rest = events@.skip(i as int);
            assert(rest[0] == events[i as int]);
            assert(rest.skip(1) =~= events@.skip(i + 1));
        }
        match builder.apply(&events[i]) {
            Ok(true) => {},
            Ok(false) => {
                return Ok(builder.finish());
            },
            Err(fault) => {
                return Err(fault);
            },
        }
        i += 1;
    }
    Ok(builder.finish())
}

/// The error that a fault in the table `file_name` of `language` is reported as.
pub fn fault_error(fault: &ParseFault, file_name: &str, language: &str) -> (error:
    BilingualGeneratorError)
    ensures
        error matches BilingualGeneratorError::XmlProcessingFailed(message) && message@
            == fault_message(fault.kind, fault.detail@, file_name@, language@),
{
    let mut message = match fault.kind {
        FaultKind::Malformed => "XML error in ".to_owned(),
        FaultKind::BadText => "Invalid XML escape sequence in ".to_owned(),
    };
    message.append(file_name);
    message.append(" for language ");
    message.append(language);
    message.append(": ");
    message.append(fault.detail.as_str());
    BilingualGeneratorError::XmlProcessingFailed(message)
}

/// Parses the document `content`, which is the table `file_name` of `language`. The
/// result is the table of the events that the document reads as; a malformed document
/// and a text inside a row that cannot be unescaped are refused, with an error that
/// names the file and the language.
pub fn parse_text_table(content: &str, file_name: &str, language: &str) -> (parsed: Result<
    TextTable,
    BilingualGeneratorError,
>)
    ensures
        match parsed {
            Ok(table) => table_of_events(document_events(content@)) == Ok::<
                Entries,
                (FaultKind, Seq<char>),
            >(table@) && is_table(table@),
            Err(error) => table_of_events(document_events(content@)) matches Err((kind, detail))
                && error matches BilingualGeneratorError::XmlProcessingFailed(message)
                && message@ == fault_message(kind, detail, file_name@, language@),
        },
{
    let mut reader = open_reader(content);
    let mut builder = TableBuilder::new();
    loop
        invariant
            is_event_stream(pending_events(reader)),
            fold_events(builder@, pending_events(reader)) == table_of_events(
                document_events(content@),
            ),
        decreases pending_events(reader).len(),
    {
        let ghost pending = pending_events(reader);
        let event = next_event(&mut reader);
        match builder.apply(&event) {
            Ok(true) => {
                proof {
                    assert(!is_terminal(event));
                    assert(pending.len() >= 2);
                    let rest = pending.skip(1);
                    assert(rest.last() == pending.last());
                    assert forall|i: int| 0 <= i < rest.len() - 1 implies !is_terminal(
                        #[trigger] rest[i],
                    ) by {
                        assert(rest[i] == pending[i + 1]);
                    }
                }
            },
            Ok(false) => {
                return Ok(builder.finish());
            },
            Err(fault) => {
                return Err(fault_error(&fault, file_name, language));
            },
        }
    }
}

} // verus!
