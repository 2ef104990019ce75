//! Finding the game's installation folder from what is known of the machine: registry
//! values, folders that exist, and the list of Steam libraries.
//!
//! Paths are texts. A folder and the name of something in it are joined with a
//! backslash.

use crate::text::{
    is_substring, lines_of, names_contain, replace_text, replaced, split_on, split_text,
    text_contains, text_eq, text_lines, to_chars,
};
use vstd::prelude::*;
use vstd::string::*;

verus! {

/// The name of the game's folder.
pub const GAME_FOLDER: &'static str = "KingdomComeDeliverance2";

/// The registry key of Steam.
pub const STEAM_KEY: &'static str = "SOFTWARE\\Valve\\Steam";

/// The registry key of Steam among the 32-bit programs.
pub const STEAM_KEY_32: &'static str = "SOFTWARE\\WOW6432Node\\Valve\\Steam";

/// The registry value that holds Steam's folder.
pub const STEAM_VALUE: &'static str = "InstallPath";

/// The registry key of GOG Galaxy.
pub const GOG_KEY: &'static str = "SOFTWARE\\GOG Galaxy";

/// The registry key of GOG Galaxy among the 32-bit programs.
pub const GOG_KEY_32: &'static str = "SOFTWARE\\WOW6432Node\\GOG Galaxy";

/// The registry value that holds GOG Galaxy's folder.
pub const GOG_VALUE: &'static str = "path";

/// What could not be found.
#[derive(Clone, Copy, Debug, PartialEq, Eq, Structural)]
pub enum NotFound {
    /// The registry does not say where Steam is.
    SteamRegistry,
    /// No Steam library holds the game.
    Steam,
    /// No GOG folder holds the game.
    Gog,
    /// Neither Steam nor GOG holds the game.
    Game,
}

impl NotFound {
    /// What could not be found, in words.
    pub open spec fn message_text(&self) -> Seq<char> {
        match self {
            NotFound::SteamRegistry => "Steam installation path not found in registry"@,
            NotFound::Steam => "KingdomComeDeliverance2 Steam installation not found"@,
            NotFound::Gog => "GOG installation not found"@,
            NotFound::Game => "KingdomComeDeliverance2 installation not found in Steam or GOG"@,
        }
    }

    /// What could not be found, in words.
    pub fn message(&self) -> (message: String)
        ensures
            message@ == self.message_text(),
    {
        match self {
            NotFound::SteamRegistry => "Steam installation path not found in registry".to_owned(),
            NotFound::Steam => "KingdomComeDeliverance2 Steam installation not found".to_owned(),
            NotFound::Gog => "GOG installation not found".to_owned(),
            NotFound::Game => {
                "KingdomComeDeliverance2 installation not found in Steam or GOG".to_owned()
            },
        }
    }
}

/// A value that was read from the registry of the local machine.
#[derive(Debug)]
pub struct RegistryValue {
    pub key: String,
    pub name: String,
    pub value: String,
}

/// A text file that was read.
#[derive(Debug)]
pub struct TextFile {
    pub path: String,
    pub content: String,
}

/// What is known of the machine.
#[derive(Debug)]
pub struct Machine {
    /// The registry values that could be read.
    pub registry: Vec<RegistryValue>,
    /// The paths that were found to exist.
    pub existing: Vec<String>,
    /// The text files that could be read.
    pub files: Vec<TextFile>,
    /// The user's home folder, where there is one.
    pub home_dir: Option<String>,
}

/// The first value listed under `key` and `name`.
pub open spec fn first_value(values: Seq<RegistryValue>, key: Seq<char>, name: Seq<char>) -> Option<
    Seq<char>,
>
    decreases values.len(),
{
    if values.len() == 0 {
        None
    } else if values[0].key@ == key && values[0].name@ == name {
        Some(values[0].value@)
    } else {
        first_value(values.skip(1), key, name)
    }
}

/// The content of the first file listed under `path`.
pub open spec fn first_content(files: Seq<TextFile>, path: Seq<char>) -> Option<Seq<char>>
    decreases files.len(),
{
    if files.len() == 0 {
        None
    } else if files[0].path@ == path {
        Some(files[0].content@)
    } else {
        first_content(files.skip(1), path)
    }
}

impl Machine {
    /// The registry value `name` under `key`, where it could be read.
    pub open spec fn value_of(&self, key: Seq<char>, name: Seq<char>) -> Option<Seq<char>> {
        first_value(self.registry@, key, name)
    }

    /// Whether `path` was found to exist.
    pub open spec fn has_path(&self, path: Seq<char>) -> bool {
        self.existing.deep_view().contains(path)
    }

    /// The content of the file `path`, where it could be read.
    pub open spec fn content_of(&self, path: Seq<char>) -> Option<Seq<char>> {
        first_content(self.files@, path)
    }

    /// A machine of which nothing is known.
    pub fn new() -> (machine: Self)
        ensures
            machine.registry@.len() == 0,
            machine.existing@.len() == 0,
            machine.files@.len() == 0,
            machine.home_dir is None,
    {
        Machine { registry: Vec::new(), existing: Vec::new(), files: Vec::new(), home_dir: None }
    }

    /// The registry value `name` under `key`, where it could be read.
    pub fn registry_value(&self, key: &str, name: &str) -> (value: Option<&String>)
        ensures
            match value {
                Some(text) => self.value_of(key@, name@) == Some(text@),
                None => self.value_of(key@, name@) is None,
            },
    {
        let mut i: usize = 0;
        assert(self.registry@.skip(0) =~= self.registry@);
        while i < self.registry.len()
            invariant
                i <= self.registry.len(),
                first_value(self.registry@, key@, name@) == first_value(
                    self.registry@.skip(i as int),
                    key@,
                    name@,
                ),
            decreases self.registry.len() - i,
        {
            let entry = &self.registry[i];
            proof {
                let rest = self.registry@.skip(i as int);
                assert(rest[0] == self.registry@[i as int]);
                assert(rest.skip(1) =~= self.registry@.skip(i + 1));
            }
            if text_eq(entry.key.as_str(), key) && text_eq(entry.name.as_str(), name) {
                return Some(&entry.value);
            }
            i += 1;
        }
        None
    }

    /// Whether `path` was found to exist.
    pub fn path_exists(&self, path: &str) -> (exists: bool)
        ensures
            exists == self.has_path(path@),
    {
        names_contain(&self.existing, path)
    }

    /// The content of the file `path`, where it could be read.
    pub fn file_content(&self, path: &str) -> (content: Option<&String>)
        ensures
            match content {
                Some(text) => self.content_of(path@) == Some(text@),
                None => self.content_of(path@) is None,
            },
    {
        let mut i: usize = 0;
        assert(self.files@.skip(0) =~= self.files@);
        while i < self.files.len()
            invariant
                i <= self.files.len(),
                first_content(self.files@, path@) == first_content(
                    self.files@.skip(i as int),
                    path@,
                ),
            decreases self.files.len() - i,
        {
            let file = &self.files[i];
            proof {
                let rest = self.files@.skip(i as int);
                assert(rest[0] == self.files@[i as int]);
                assert(rest.skip(1) =~= self.files@.skip(i + 1));
            }
            if text_eq(file.path.as_str(), path) {
                return Some(&file.content);
            }
            i += 1;
        }
        None
    }
}

/// Whether a character parts the folders of a path.
pub open spec fn is_separator(c: char) -> bool {
    c == '\\' || c == '/'
}

/// The path of `name` in the folder `base`: the two joined with a backslash, or put
/// together as they are where `base` is empty or ends with a separator.
pub open spec fn joined_path(base: Seq<char>, name: Seq<char>) -> Seq<char> {
    if base.len() == 0 || is_separator(base.last()) {
        base + name
    } else {
        base + "\\"@ + name
    }
}

/// The game's folder in the Steam library at `root`.
pub open spec fn steam_game_dir(root: Seq<char>) -> Seq<char> {
    joined_path(joined_path(joined_path(root, "steamapps"@), "common"@), GAME_FOLDER@)
}

/// The file that lists the Steam libraries, for Steam's folder `install`.
pub open spec fn library_folders_file(install: Seq<char>) -> Seq<char> {
    joined_path(joined_path(install, "steamapps"@), "libraryfolders.vdf"@)
}

/// A path without the slashes at its end.
pub open spec fn without_trailing_slashes(path: Seq<char>) -> Seq<char>
    decreases path.len(),
{
    if path.len() > 0 && path.last() == '/' {
        without_trailing_slashes(path.drop_last())
    } else {
        path
    }
}

/// What stands before the last slash of a path; nothing where it has no slash.
pub open spec fn before_last_slash(path: Seq<char>) -> Seq<char>
    decreases path.len(),
{
    if path.len() == 0 {
        Seq::empty()
    } else if path.last() == '/' {
        path.drop_last()
    } else {
        before_last_slash(path.drop_last())
    }
}

/// The folder that holds what a path written with slashes names.
pub open spec fn parent_dir(path: Seq<char>) -> Seq<char> {
    before_last_slash(without_trailing_slashes(path))
}

/// The game's folder as GOG Galaxy installs it, for Galaxy's folder `galaxy`: the
/// folder `Games` beside Galaxy's own.
pub open spec fn gog_game_dir(galaxy: Seq<char>) -> Seq<char> {
    joined_path(joined_path(parent_dir(replaced(galaxy, "\\"@, "/"@)), "Games"@), GAME_FOLDER@)
}

/// The folders where GOG games are commonly installed: on the first two drives, and in
/// the user's home folder. Without a home folder the third is the empty path.
pub open spec fn gog_common_dirs(home: Option<Seq<char>>) -> Seq<Seq<char>> {
    seq![
        "C:\\GOG Games\\KingdomComeDeliverance2"@,
        "D:\\GOG Games\\KingdomComeDeliverance2"@,
        match home {
            Some(home) => joined_path(home, "GOG Games/KingdomComeDeliverance2"@),
            None => Seq::empty(),
        },
    ]
}

/// The library that a line of the library list names: the fourth of the pieces between
/// its double quotes, where the line holds `"path"` and has that many pieces.
pub open spec fn library_of_line(line: Seq<char>) -> Option<Seq<char>> {
    let parts = split_on(line, "\""@);
    if is_substring(line, "\"path\""@) && parts.len() >= 4 {
        Some(parts[3])
    } else {
        None
    }
}

/// The game's folder in the first library named by the lines in which it exists.
pub open spec fn first_library_game_dir(machine: Machine, lines: Seq<Seq<char>>) -> Option<
    Seq<char>,
>
    decreases lines.len(),
{
    if lines.len() == 0 {
        None
    } else {
        match library_of_line(lines[0]) {
            Some(root) if machine.has_path(steam_game_dir(root)) => Some(steam_game_dir(root)),
            _ => first_library_game_dir(machine, lines.skip(1)),
        }
    }
}

/// The first of the folders that holds a `Data` folder.
pub open spec fn first_with_data(machine: Machine, dirs: Seq<Seq<char>>) -> Option<Seq<char>>
    decreases dirs.len(),
{
    if dirs.len() == 0 {
        None
    } else if machine.has_path(joined_path(dirs[0], "Data"@)) {
        Some(dirs[0])
    } else {
        first_with_data(machine, dirs.skip(1))
    }
}

/// Steam's folder as the registry gives it: under Steam's key, else under its key among
/// the 32-bit programs.
pub open spec fn steam_install_path(machine: Machine) -> Option<Seq<char>> {
    match machine.value_of(STEAM_KEY@, STEAM_VALUE@) {
        Some(path) => Some(path),
        None => machine.value_of(STEAM_KEY_32@, STEAM_VALUE@),
    }
}

/// The game's folder in Steam's own library, where it exists.
pub open spec fn default_library_game_dir(machine: Machine, install: Seq<char>) -> Option<
    Seq<char>,
> {
    if machine.has_path(steam_game_dir(install)) {
        Some(steam_game_dir(install))
    } else {
        None
    }
}

/// The game's folder in the first of the other Steam libraries in which it exists. The
/// libraries are those that the library list names, in its order.
pub open spec fn other_library_game_dir(machine: Machine, install: Seq<char>) -> Option<Seq<char>> {
    let list = library_folders_file(install);
    if !machine.has_path(list) {
        None
    } else {
        match machine.content_of(list) {
            Some(content) => first_library_game_dir(machine, text_lines(content)),
            None => None,
        }
    }
}

/// The game's folder as installed by Steam: in Steam's own library, else in another.
pub open spec fn steam_installation(machine: Machine) -> Result<Seq<char>, NotFound> {
    match steam_install_path(machine) {
        None => Err(NotFound::SteamRegistry),
        Some(install) => match default_library_game_dir(machine, install) {
            Some(path) => Ok(path),
            None => match other_library_game_dir(machine, install) {
                Some(path) => Ok(path),
                None => Err(NotFound::Steam),
            },
        },
    }
}

/// The game's folder beside the GOG Galaxy that the registry names under `key`, where
/// that folder exists.
pub open spec fn gog_registry_game_dir(machine: Machine, key: Seq<char>) -> Option<Seq<char>> {
    match machine.value_of(key, GOG_VALUE@) {
        Some(galaxy) if machine.has_path(gog_game_dir(galaxy)) => Some(gog_game_dir(galaxy)),
        _ => None,
    }
}

/// The game's folder as installed by GOG: beside GOG Galaxy, else in one of the common
/// folders.
pub open spec fn gog_installation(machine: Machine) -> Result<Seq<char>, NotFound> {
    match gog_registry_game_dir(machine, GOG_KEY@) {
        Some(path) => Ok(path),
        None => match gog_registry_game_dir(machine, GOG_KEY_32@) {
            Some(path) => Ok(path),
            None => match first_with_data(
                machine,
                gog_common_dirs(
                    match machine.home_dir {
                        Some(home) => Some(home@),
                        None => None,
                    },
                ),
            ) {
                Some(path) => Ok(path),
                None => Err(NotFound::Gog),
            },
        },
    }
}

/// The game's folder: as installed by Steam, else as installed by GOG.
pub open spec fn game_installation(machine: Machine) -> Result<Seq<char>, NotFound> {
    match steam_installation(machine) {
        Ok(path) => Ok(path),
        Err(_) => match gog_installation(machine) {
            Ok(path) => Ok(path),
            Err(_) => Err(NotFound::Game),
        },
    }
}

/// The path of `name` in the folder `base`.
pub fn join_path(base: &str, name: &str) -> (path: String)
    ensures
        path@ == joined_path(base@, name@),
{
    let chars = to_chars(base);
    let mut path = base.to_owned();
    if chars.len() > 0 {
        let last = chars[chars.len() - 1];
        if !(last == '\\' || last == '/') {
            path.append("\\");
        }
    }
    path.append(name);
    path
}

/// The game's folder in the Steam library at `root`.
pub fn steam_game_dir_of(root: &str) -> (dir: String)
    ensures
        dir@ == steam_game_dir(root@),
{
    let apps = join_path(root, "steamapps");
    let common = join_path(apps.as_str(), "common");
    join_path(common.as_str(), GAME_FOLDER)
}

/// The file that lists the Steam libraries, for Steam's folder `install`.
pub fn library_folders_file_of(install: &str) -> (file: String)
    ensures
        file@ == library_folders_file(install@),
{
    let apps = join_path(install, "steamapps");
    join_path(apps.as_str(), "libraryfolders.vdf")
}

/// The folder that holds what a path written with slashes names.
pub fn parent_dir_of(path: &str) -> (parent: String)
    ensures
        parent@ == parent_dir(path@),
{
    let chars = to_chars(path);
    let mut end: usize = chars.len();
    assert(chars@.take(end as int) =~= chars@);
    while end > 0 && chars[end - 1] == '/'
        invariant
            end <= chars.len(),
            without_trailing_slashes(chars@) == without_trailing_slashes(chars@.take(end as int)),
        decreases end,
    {
        proof {
            let part = chars@.take(end as int);
            assert(part.last() == chars@[end - 1]);
            assert(part.drop_last() =~= chars@.take(end - 1));
        }
        end -= 1;
    }
    proof {
        let part = chars@.take(end as int);
        if end > 0 {
            assert(part.last() == chars@[end - 1]);
        }
        assert(without_trailing_slashes(chars@) == part);
    }
    let ghost trimmed = chars@.take(end as int);
    let mut at: usize = end;
    while at > 0 && chars[at - 1] != '/'
        invariant
            at <= end <= chars.len(),
            trimmed == chars@.take(end as int),
            before_last_slash(trimmed) == before_last_slash(chars@.take(at as int)),
        decreases at,
    {
        proof {
            let part = chars@.take(at as int);
            assert(part.last() == chars@[at - 1]);
            assert(part.drop_last() =~= chars@.take(at - 1));
        }
        at -= 1;
    }
    if at == 0 {
        assert(chars@.take(0).len() == 0);
        String::new()
    } else {
        proof {
            let part = chars@.take(at as int);
            assert(part.last() == chars@[at - 1]);
            assert(part.drop_last() =~= chars@.subrange(0, at - 1));
        }
        path.substring_char(0, at - 1).to_owned()
    }
}

/// The game's folder as GOG Galaxy installs it, for Galaxy's folder `galaxy`.
pub fn gog_game_dir_of(galaxy: &str) -> (dir: String)
    ensures
        dir@ == gog_game_dir(galaxy@),
{
    let slashed = replace_text(galaxy, "\\", "/");
    let parent = parent_dir_of(slashed.as_str());
    let games = join_path(parent.as_str(), "Games");
    join_path(games.as_str(), GAME_FOLDER)
}

/// The folders where GOG games are commonly installed.
pub fn gog_common_dirs_of(home: Option<&String>) -> (dirs: Vec<String>)
    ensures
        dirs.deep_view() == gog_common_dirs(
            match home {
                Some(home) => Some(home@),
                None => None,
            },
        ),
{
    let mut dirs: Vec<String> = Vec::new();
    dirs.push("C:\\GOG Games\\KingdomComeDeliverance2".to_owned());
    dirs.push("D:\\GOG Games\\KingdomComeDeliverance2".to_owned());
    match home {
        Some(home) => {
            dirs.push(join_path(home.as_str(), "GOG Games/KingdomComeDeliverance2"));
        },
        None => {
            dirs.push(String::new());
        },
    }
    assert(dirs.deep_view() =~= gog_common_dirs(
        match home {
            Some(home) => Some(home@),
            None => None,
        },
    ));
    dirs
}

/// The library that a line of the library list names.
pub fn library_root_of_line(line: &str) -> (root: Option<String>)
    ensures
        match root {
            Some(path) => library_of_line(line@) == Some(path@),
            None => library_of_line(line@) is None,
        },
{
    if !text_contains(line, "\"path\"") {
        return None;
    }
    let parts = split_text(line, "\"");
    if parts.len() >= 4 {
        Some(parts[3].clone())
    } else {
        None
    }
}

/// Steam's folder as the registry gives it.
pub fn get_steam_install_path_from_registry(machine: &Machine) -> (install: Result<
    String,
    NotFound,
>)
    ensures
        match install {
            Ok(path) => steam_install_path(*machine) == Some(path@),
            Err(reason) => steam_install_path(*machine) is None && reason
                == NotFound::SteamRegistry,
        },
{
    match machine.registry_value(STEAM_KEY, STEAM_VALUE) {
        Some(path) => Ok(path.clone()),
        None => match machine.registry_value(STEAM_KEY_32, STEAM_VALUE) {
            Some(path) => Ok(path.clone()),
            None => Err(NotFound::SteamRegistry),
        },
    }
}

/// The game's folder in Steam's own library, where it exists.
pub fn check_default_steam_library_path(
    steam_install_path: &str,
    machine: &Machine,
) -> (found: Option<String>)
    ensures
        match found {
            Some(path) => default_library_game_dir(*machine, steam_install_path@) == Some(path@),
            None => default_library_game_dir(*machine, steam_install_path@) is None,
        },
{
    let game_path = steam_game_dir_of(steam_install_path);
    if machine.path_exists(game_path.as_str()) {
        Some(game_path)
    } else {
        None
    }
}

/// The game's folder in the first of the other Steam libraries in which it exists.
pub fn resolve_other_steam_library_paths(
    steam_install_path: &str,
    machine: &Machine,
) -> (found: Option<String>)
    ensures
        match found {
            Some(path) => other_library_game_dir(*machine, steam_install_path@) == Some(path@),
            None => other_library_game_dir(*machine, steam_install_path@) is None,
        },
{
    let list = library_folders_file_of(steam_install_path);
    if !machine.path_exists(list.as_str()) {
        return None;
    }
    let content = match machine.file_content(list.as_str()) {
        Some(content) => content,
        None => {
            return None;
        },
    };
    let lines = lines_of(content.as_str());
    let ghost all = lines.deep_view();
    let mut i: usize = 0;
    assert(all.skip(0) =~= all);
    while i < lines.len()
        invariant
            i <= lines.len(),
            all == lines.deep_view(),
            other_library_game_dir(*machine, steam_install_path@) == first_library_game_dir(
                *machine,
                all.skip(i as int),
            ),
        decreases lines.len() - i,
    {
        proof {
            let rest = all.skip(i as int);
            assert(rest[0] == lines[i as int]@);
            assert(rest.skip(1) =~= all.skip(i + 1));
        }
        match library_root_of_line(lines[i].as_str()) {
            Some(root) => {
                let custom_path = steam_game_dir_of(root.as_str());
                if machine.path_exists(custom_path.as_str()) {
                    return Some(custom_path);
                }
            },
            None => {},
        }
        i += 1;
    }
    None
}

/// Remembers the installation folder once it was found.
pub struct PathFinder {
    game_path: String,
}

impl View for PathFinder {
    type V = Seq<char>;

    closed spec fn view(&self) -> Seq<char> {
        self.game_path@
    }
}

impl PathFinder {
    /// A finder that has found nothing yet: its path is empty.
    pub fn new() -> (finder: Self)
        ensures
            finder@ == Seq::<char>::empty(),
    {
        PathFinder { game_path: String::new() }
    }

    /// The folder that was found last; empty where none was found.
    pub fn game_path(&self) -> (path: &String)
        ensures
            path@ == self@,
    {
        &self.game_path
    }

    /// Looks for the game's folder, first as installed by Steam, then as installed by
    /// GOG. A folder that is found is remembered and returned; else the finder stays
    /// as it is.
    pub fn find_game_path(&mut self, machine: &Machine) -> (found: Result<String, NotFound>)
        ensures
            match found {
                Ok(path) => game_installation(*machine) == Ok::<Seq<char>, NotFound>(path@)
                    && final(self)@ == path@,
                Err(reason) => game_installation(*machine) == Err::<Seq<char>, NotFound>(reason)
                    && reason == NotFound::Game && final(self)@ == old(self)@,
            },
    {
        match Self::find_steam_installation(machine) {
            Ok(steam_path) => {
                self.game_path = steam_path.clone();
                Ok(steam_path)
            },
            Err(_) => match Self::find_gog_installation(machine) {
                Ok(gog_path) => {
                    self.game_path = gog_path.clone();
                    Ok(gog_path)
                },
                Err(_) => Err(NotFound::Game),
            },
        }
    }

    /// The game's folder as installed by Steam: in the library in Steam's own folder,
    /// else in the first other library that holds the game.
    pub fn find_steam_installation(machine: &Machine) -> (found: Result<String, NotFound>)
        ensures
            match found {
                Ok(path) => steam_installation(*machine) == Ok::<Seq<char>, NotFound>(path@),
                Err(reason) => steam_installation(*machine) == Err::<Seq<char>, NotFound>(reason),
            },
    {
        let steam_install_path = match get_steam_install_path_from_registry(machine) {
            Ok(path) => path,
            Err(reason) => {
                return Err(reason);
            },
        };
        match check_default_steam_library_path(steam_install_path.as_str(), machine) {
            Some(path) => {
                return Ok(path);
            },
            None => {},
        }
        match resolve_other_steam_library_paths(steam_install_path.as_str(), machine) {
            Some(path) => Ok(path),
            None => Err(NotFound::Steam),
        }
    }

    /// The game's folder as installed by GOG: beside the GOG Galaxy that the registry
    /// names, else the first of the common folders that holds a `Data` folder.
    pub fn find_gog_installation(machine: &Machine) -> (found: Result<String, NotFound>)
        ensures
            match found {
                Ok(path) => gog_installation(*machine) == Ok::<Seq<char>, NotFound>(path@),
                Err(reason) => gog_installation(*machine) == Err::<Seq<char>, NotFound>(reason),
            },
    {
        match gog_from_registry(machine, GOG_KEY) {
            Some(path) => {
                return Ok(path);
            },
            None => {},
        }
        match gog_from_registry(machine, GOG_KEY_32) {
            Some(path) => {
                return Ok(path);
            },
            None => {},
        }
        let common_paths = gog_common_dirs_of(machine.home_dir.as_ref());
        let ghost all = common_paths.deep_view();
        let mut i: usize = 0;
        assert(all.skip(0) =~= all);
        while i < common_paths.len()
            invariant
                i <= common_paths.len(),
                all == common_paths.deep_view(),
                gog_registry_game_dir(*machine, GOG_KEY@) is None,
                gog_registry_game_dir(*machine, GOG_KEY_32@) is None,
                first_with_data(
                    *machine,
                    gog_common_dirs(
                        match machine.home_dir {
                            Some(home) => Some(home@),
                            None => None,
                        },
                    ),
                ) == first_with_data(*machine, all.skip(i as int)),
            decreases common_paths.len() - i,
        {
            proof {
                let rest = all.skip(i as int);
                assert(rest[0] == common_paths[i as int]@);
                assert(rest.skip(1) =~= all.skip(i + 1));
            }
            let data = join_path(common_paths[i].as_str(), "Data");
            if machine.path_exists(data.as_str()) {
                return Ok(common_paths[i].clone());
            }
            i += 1;
        }
        Err(NotFound::Gog)
    }
}

/// The game's folder beside the GOG Galaxy that the registry names under `key`.
pub fn gog_from_registry(machine: &Machine, key: &str) -> (found: Option<String>)
    ensures
        match found {
            Some(path) => gog_registry_game_dir(*machine, key@) == Some(path@),
            None => gog_registry_game_dir(*machine, key@) is None,
        },
{
    match machine.registry_value(key, GOG_VALUE) {
        Some(galaxy) => {
            let path = gog_game_dir_of(galaxy.as_str());
            if machine.path_exists(path.as_str()) {
                Some(path)
            } else {
                None
            }
        },
        None => None,
    }
}

} // verus!
