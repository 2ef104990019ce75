//! The rules that merge primary, secondary and English text into one value.

use crate::text::{chars_contain, concat3, is_substring, text_eq, to_chars};
use crate::text_table::LastTextValue;
use vstd::prelude::*;
use vstd::string::*;

verus! {

/// Joins two texts on one line.
pub const SEPARATOR_SLASH: &'static str = "/";

/// Joins two texts on two lines: a backslash followed by the letter `n`, which the
/// target format reads as a line break.
pub const SEPARATOR_NEWLINE: &'static str = "\\n";

/// Stands for a text that a lookup did not find.
pub const MISSING: &'static str = "MISSING";

/// The table of menu texts.
pub const MENUS_FILE: &'static str = "text_ui_menus.xml";

/// The table of dialogue lines.
pub const DIALOG_FILE: &'static str = "text_ui_dialog.xml";

/// The table of item texts.
pub const ITEMS_FILE: &'static str = "text_ui_items.xml";

/// The table of stats and effects.
pub const SOUL_FILE: &'static str = "text_ui_soul.xml";

/// The rule set that a table is merged under.
#[derive(Clone, Copy, Debug, PartialEq, Eq, Structural)]
pub enum FileKind {
    Menus,
    Dialog,
    Items,
    Soul,
    Other,
}

/// The rule set of the table with the given file name.
pub open spec fn kind_of(file_name: Seq<char>) -> FileKind {
    if file_name == MENUS_FILE@ {
        FileKind::Menus
    } else if file_name == DIALOG_FILE@ {
        FileKind::Dialog
    } else if file_name == ITEMS_FILE@ {
        FileKind::Items
    } else if file_name == SOUL_FILE@ {
        FileKind::Soul
    } else {
        FileKind::Other
    }
}

/// A secondary text is present when it is neither the sentinel nor empty.
pub open spec fn is_present(text: Seq<char>) -> bool {
    text != MISSING@ && text.len() > 0
}

/// `primary`, followed by `sep` and `secondary` where the latter is present.
pub open spec fn combined(primary: Seq<char>, secondary: Seq<char>, sep: Seq<char>) -> Seq<char> {
    if is_present(secondary) {
        primary + sep + secondary
    } else {
        primary
    }
}

/// `primary`, `sep`, and then `secondary` where it is present, else `english`.
pub open spec fn with_fallback(
    primary: Seq<char>,
    secondary: Seq<char>,
    english: Seq<char>,
    sep: Seq<char>,
) -> Seq<char> {
    if is_present(secondary) {
        primary + sep + secondary
    } else {
        primary + sep + english
    }
}

/// Menu entries whose description stays in the primary language whatever its length.
pub open spec fn is_menu_exception(id: Seq<char>) -> bool {
    ||| id == "ui_state_health_desc"@
    ||| id == "ui_state_hunger_desc"@
    ||| id == "ui_DerivStat_MaxStamina_desc"@
}

/// Item entries that stay in the primary language: later steps of a recipe with a
/// long text, and first steps of the three named recipes.
pub open spec fn is_item_exception(id: Seq<char>, primary: Seq<char>) -> bool {
    ||| (is_substring(id, "step"@) && !is_substring(id, "_step_1"@) && primary.len() >= 10)
    ||| (is_substring(id, "step_1"@) && (is_substring(id, "scatter"@) || is_substring(
        id,
        "longWeak"@,
    ) || is_substring(id, "bane"@)))
}

/// Stat entries short enough to share a line with the secondary text.
pub open spec fn is_soul_short(id: Seq<char>, primary: Seq<char>) -> bool {
    ||| (primary.len() <= 7 && primary != MISSING@)
    ||| (primary.len() <= 12 && is_substring(id, "stat_"@))
}

/// Stat entries that are descriptions of buffs or perks.
pub open spec fn is_soul_description(id: Seq<char>) -> bool {
    ||| (is_substring(id, "buff"@) && is_substring(id, "desc"@) && !is_substring(
        id,
        "drunkenness_desc"@,
    ))
    ||| (is_substring(id, "perk"@) && is_substring(id, "_desc"@))
}

/// The merged text of a menu entry.
pub open spec fn menus_text(id: Seq<char>, primary: Seq<char>, secondary: Seq<char>) -> Seq<char> {
    if is_substring(id, "ui_helpoverlay"@) {
        primary
    } else if is_substring(id, "ui_loading"@) || is_substring(id, "codex_cont"@) {
        combined(primary, secondary, SEPARATOR_NEWLINE@)
    } else if primary.len() <= 4 || is_menu_exception(id) {
        primary
    } else if primary.len() >= 20 {
        combined(primary, secondary, SEPARATOR_NEWLINE@)
    } else {
        combined(primary, secondary, SEPARATOR_SLASH@)
    }
}

/// The merged text of an item entry.
pub open spec fn items_text(id: Seq<char>, primary: Seq<char>, secondary: Seq<char>) -> Seq<char> {
    if is_item_exception(id, primary) {
        primary
    } else if primary.len() >= 7 {
        combined(primary, secondary, SEPARATOR_NEWLINE@)
    } else {
        combined(primary, secondary, SEPARATOR_SLASH@)
    }
}

/// The merged text of a stat or effect entry.
pub open spec fn soul_text(id: Seq<char>, primary: Seq<char>, secondary: Seq<char>) -> Seq<char> {
    if is_soul_short(id, primary) {
        combined(primary, secondary, SEPARATOR_SLASH@)
    } else if is_soul_description(id) {
        combined(primary, secondary, SEPARATOR_NEWLINE@)
    } else {
        primary
    }
}

/// The merged text of one entry under the rule set `kind`. Lengths count characters,
/// not bytes. The first rule of a set that applies decides.
pub open spec fn merged_text_for(
    kind: FileKind,
    id: Seq<char>,
    primary: Seq<char>,
    secondary: Seq<char>,
    english: Seq<char>,
) -> Seq<char> {
    match kind {
        FileKind::Menus => menus_text(id, primary, secondary),
        FileKind::Dialog => with_fallback(primary, secondary, english, SEPARATOR_NEWLINE@),
        FileKind::Items => items_text(id, primary, secondary),
        FileKind::Soul => soul_text(id, primary, secondary),
        FileKind::Other => with_fallback(primary, secondary, english, SEPARATOR_SLASH@),
    }
}

/// The merged text of one entry of the table `file_name`.
pub open spec fn merged_text(
    file_name: Seq<char>,
    id: Seq<char>,
    primary: Seq<char>,
    secondary: Seq<char>,
    english: Seq<char>,
) -> Seq<char> {
    merged_text_for(kind_of(file_name), id, primary, secondary, english)
}

/// Whether a secondary text is present.
pub fn text_is_present(text: &str) -> (present: bool)
    ensures
        present == is_present(text@),
{
    !text_eq(text, MISSING) && text.unicode_len() > 0
}

/// The rule set of the table with the given file name.
pub fn classify_file(file_name: &str) -> (kind: FileKind)
    ensures
        kind == kind_of(file_name@),
{
    if text_eq(file_name, MENUS_FILE) {
        FileKind::Menus
    } else if text_eq(file_name, DIALOG_FILE) {
        FileKind::Dialog
    } else if text_eq(file_name, ITEMS_FILE) {
        FileKind::Items
    } else if text_eq(file_name, SOUL_FILE) {
        FileKind::Soul
    } else {
        FileKind::Other
    }
}

/// Joins `primary_text` and `secondary_text` with `separator`, or gives back the primary
/// text alone where the secondary text is the sentinel or empty.
pub fn secondary_text_combined(
    primary_text: &LastTextValue,
    secondary_text: &str,
    separator: &str,
) -> (text: String)
    ensures
        text@ == combined(primary_text.0@, secondary_text@, separator@),
{
    combine(primary_text.0.as_str(), secondary_text, separator)
}

/// Joins `primary` and `secondary` with `separator`, or gives back the primary text
/// alone where the secondary text is the sentinel or empty.
pub fn combine(primary: &str, secondary: &str, separator: &str) -> (text: String)
    ensures
        text@ == combined(primary@, secondary@, separator@),
{
    if text_is_present(secondary) {
        concat3(primary, separator, secondary)
    } else {
        primary.to_owned()
    }
}

/// Joins `primary` with `secondary`, or with `english` where the secondary text is the
/// sentinel or empty. The result always holds the separator.
pub fn text_with_fallback(
    primary: &str,
    secondary: &str,
    english: &str,
    separator: &str,
) -> (text: String)
    ensures
        text@ == with_fallback(primary@, secondary@, english@, separator@),
{
    if text_is_present(secondary) {
        concat3(primary, separator, secondary)
    } else {
        concat3(primary, separator, english)
    }
}

/// Whether a menu entry is one of those that stay in the primary language.
fn menu_exception(id: &str) -> (listed: bool)
    ensures
        listed == is_menu_exception(id@),
{
    text_eq(id, "ui_state_health_desc") || text_eq(id, "ui_state_hunger_desc") || text_eq(
        id,
        "ui_DerivStat_MaxStamina_desc",
    )
}

/// Whether an item entry stays in the primary language.
fn item_exception(id: &Vec<char>, primary: &str, primary_len: usize) -> (listed: bool)
    requires
        primary_len == primary@.len(),
    ensures
        listed == is_item_exception(id@, primary@),
{
    (chars_contain(id, "step") && !chars_contain(id, "_step_1") && primary_len >= 10) || (
    chars_contain(id, "step_1") && (chars_contain(id, "scatter") || chars_contain(id, "longWeak")
        || chars_contain(id, "bane")))
}

/// Whether a stat entry is short enough to share a line with the secondary text.
fn soul_short(id: &Vec<char>, primary: &str, primary_len: usize) -> (short: bool)
    requires
        primary_len == primary@.len(),
    ensures
        short == is_soul_short(id@, primary@),
{
    (primary_len <= 7 && !text_eq(primary, MISSING)) || (primary_len <= 12 && chars_contain(
        id,
        "stat_",
    ))
}

/// Whether a stat entry is the description of a buff or a perk.
fn soul_description(id: &Vec<char>) -> (described: bool)
    ensures
        described == is_soul_description(id@),
{
    (chars_contain(id, "buff") && chars_contain(id, "desc") && !chars_contain(
        id,
        "drunkenness_desc",
    )) || (chars_contain(id, "perk") && chars_contain(id, "_desc"))
}

/// Merges one entry under the rule set `kind`.
pub fn merge_rule_for(
    kind: FileKind,
    entry_id: &str,
    primary: &str,
    secondary: &str,
    english: &str,
) -> (text: String)
    ensures
        text@ == merged_text_for(kind, entry_id@, primary@, secondary@, english@),
{
    match kind {
        FileKind::Menus => {
            let id = to_chars(entry_id);
            let len = primary.unicode_len();
            if chars_contain(&id, "ui_helpoverlay") {
                primary.to_owned()
            } else if chars_contain(&id, "ui_loading") || chars_contain(&id, "codex_cont") {
                combine(primary, secondary, SEPARATOR_NEWLINE)
            } else if len <= 4 || menu_exception(entry_id) {
                primary.to_owned()
            } else if len >= 20 {
                combine(primary, secondary, SEPARATOR_NEWLINE)
            } else {
                combine(primary, secondary, SEPARATOR_SLASH)
            }
        },
        FileKind::Dialog => text_with_fallback(primary, secondary, english, SEPARATOR_NEWLINE),
        FileKind::Items => {
            let id = to_chars(entry_id);
            let len = primary.unicode_len();
            if item_exception(&id, primary, len) {
                primary.to_owned()
            } else if len >= 7 {
                combine(primary, secondary, SEPARATOR_NEWLINE)
            } else {
                combine(primary, secondary, SEPARATOR_SLASH)
            }
        },
        FileKind::Soul => {
            let id = to_chars(entry_id);
            let len = primary.unicode_len();
            if soul_short(&id, primary, len) {
                combine(primary, secondary, SEPARATOR_SLASH)
            } else if soul_description(&id) {
                combine(primary, secondary, SEPARATOR_NEWLINE)
            } else {
                primary.to_owned()
            }
        },
        FileKind::Other => text_with_fallback(primary, secondary, english, SEPARATOR_SLASH),
    }
}

/// Merges one entry of the table `file_name`: the combined text that stands in the third
/// cell of the output row.
pub fn merge_rule(
    file_name: &str,
    entry_id: &str,
    primary: &str,
    secondary: &str,
    english: &str,
) -> (text: String)
    ensures
        text@ == merged_text(file_name@, entry_id@, primary@, secondary@, english@),
{
    merge_rule_for(classify_file(file_name), entry_id, primary, secondary, english)
}

/// The four tables with rules of their own are told apart by their names.
pub proof fn lemma_file_kinds()
    ensures
        kind_of(MENUS_FILE@) == FileKind::Menus,
        kind_of(DIALOG_FILE@) == FileKind::Dialog,
        kind_of(ITEMS_FILE@) == FileKind::Items,
        kind_of(SOUL_FILE@) == FileKind::Soul,
{
    reveal_strlit("text_ui_menus.xml");
    reveal_strlit("text_ui_dialog.xml");
    reveal_strlit("text_ui_items.xml");
    reveal_strlit("text_ui_soul.xml");
    assert(MENUS_FILE@[8] == 'm');
    assert(DIALOG_FILE@[8] == 'd');
    assert(ITEMS_FILE@[8] == 'i');
    assert(SOUL_FILE@[8] == 's');
}

/// In the dialogue table, and in every table without rules of its own, an entry whose
/// secondary text is absent takes the English text: the merged text is the primary
/// text, the separator and the English text, also where the English text is the
/// sentinel.
pub proof fn lemma_fallback_substitution(
    file_name: Seq<char>,
    id: Seq<char>,
    primary: Seq<char>,
    secondary: Seq<char>,
    english: Seq<char>,
)
    requires
        !is_present(secondary),
        kind_of(file_name) == FileKind::Dialog || kind_of(file_name) == FileKind::Other,
    ensures
        kind_of(file_name) == FileKind::Dialog ==> merged_text(
            file_name,
            id,
            primary,
            secondary,
            english,
        ) == primary + SEPARATOR_NEWLINE@ + english,
        kind_of(file_name) == FileKind::Other ==> merged_text(
            file_name,
            id,
            primary,
            secondary,
            english,
        ) == primary + SEPARATOR_SLASH@ + english,
{
}

/// The merged text depends on the five texts alone: equal texts give equal merged
/// texts.
pub proof fn lemma_merge_is_deterministic(
    file_name: Seq<char>,
    id: Seq<char>,
    primary: Seq<char>,
    secondary: Seq<char>,
    english: Seq<char>,
    other_file_name: Seq<char>,
    other_id: Seq<char>,
    other_primary: Seq<char>,
    other_secondary: Seq<char>,
    other_english: Seq<char>,
)
    requires
        file_name =~= other_file_name,
        id =~= other_id,
        primary =~= other_primary,
        secondary =~= other_secondary,
        english =~= other_english,
    ensures
        merged_text(file_name, id, primary, secondary, english) == merged_text(
            other_file_name,
            other_id,
            other_primary,
            other_secondary,
            other_english,
        ),
{
}

/// A text holds no occurrence of a text with a character that it does not hold.
pub proof fn lemma_foreign_char_excludes(hay: Seq<char>, needle: Seq<char>, k: int)
    requires
        0 <= k < needle.len(),
        !hay.contains(needle[k]),
    ensures
        !is_substring(hay, needle),
{
    if is_substring(hay, needle) {
        let at = choose|at: int| crate::text::occurs_at(hay, needle, at);
        let window = hay.subrange(at, at + needle.len());
        assert(window[k] == hay[at + k]);
        assert(hay.contains(hay[at + k]));
    }
}

/// The description of the health state stays in the primary language in the menu
/// table, whatever its length and whatever the other languages say.
pub proof fn lemma_health_description_keeps_primary(
    primary: Seq<char>,
    secondary: Seq<char>,
    english: Seq<char>,
)
    ensures
        merged_text(MENUS_FILE@, "ui_state_health_desc"@, primary, secondary, english) == primary,
{
    lemma_file_kinds();
    let id = "ui_state_health_desc"@;
    reveal_strlit("ui_state_health_desc");
    reveal_strlit("ui_helpoverlay");
    reveal_strlit("ui_loading");
    reveal_strlit("codex_cont");
    assert(!id.contains('o')) by {
        assert forall|i: int| 0 <= i < id.len() implies id[i] != 'o' by {}
    }
    assert("ui_helpoverlay"@[7] == 'o');
    assert("ui_loading"@[4] == 'o');
    assert("codex_cont"@[1] == 'o');
    lemma_foreign_char_excludes(id, "ui_helpoverlay"@, 7);
    lemma_foreign_char_excludes(id, "ui_loading"@, 4);
    lemma_foreign_char_excludes(id, "codex_cont"@, 1);
}

/// The first step of a scatter recipe stays in the primary language in the item
/// table, whatever its length.
pub proof fn lemma_scatter_first_step_keeps_primary(
    primary: Seq<char>,
    secondary: Seq<char>,
    english: Seq<char>,
)
    ensures
        merged_text(ITEMS_FILE@, "sword_step_1_scatter"@, primary, secondary, english) == primary,
{
    lemma_file_kinds();
    let id = "sword_step_1_scatter"@;
    reveal_strlit("sword_step_1_scatter");
    reveal_strlit("step_1");
    reveal_strlit("scatter");
    assert(id.subrange(6, 12) =~= "step_1"@);
    assert(crate::text::occurs_at(id, "step_1"@, 6));
    assert(id.subrange(13, 20) =~= "scatter"@);
    assert(crate::text::occurs_at(id, "scatter"@, 13));
}

} // verus!
