//! Planning a backup: which characters, sessions and group chats a selection covers, which
//! resource files go into the archive under which names, and what the archive will weigh.
//!
//! Reading the database and walking directories happen outside; the plan is computed here
//! from the rows and file listings they produce.
use vstd::prelude::*;

use crate::json::{member_views, views, Json, JsonV};
use crate::text::{
    chars_of, contains_string, distinct_strings, insert_string, push_str, str_eq, str_set,
    string_views,
};

verus! {

// ---------------------------------------------------------------------------
// Selections and scopes
// ---------------------------------------------------------------------------

/// A full backup, or one limited to chosen characters.
#[derive(Debug, Clone, Copy, PartialEq, Eq, Structural)]
pub enum BackupSelectionMode {
    Full,
    Custom,
}

impl Default for BackupSelectionMode {
    fn default() -> (r: Self)
        ensures
            r == BackupSelectionMode::Full,
    {
        BackupSelectionMode::Full
    }
}

/// A chosen character and which of its media go along.
#[derive(Debug, Clone)]
pub struct BackupCharacterSelection {
    pub character_id: String,
    pub include_audio: bool,
    pub include_images: bool,
}

/// What the user asked to back up.
#[derive(Debug, Clone)]
pub struct BackupSelection {
    pub mode: BackupSelectionMode,
    pub characters: Vec<BackupCharacterSelection>,
    pub include_unassigned_audio: bool,
}

impl Default for BackupSelection {
    /// A full backup with unassigned audio.
    fn default() -> (r: Self)
        ensures
            r.mode == BackupSelectionMode::Full,
            r.characters@.len() == 0,
            r.include_unassigned_audio,
    {
        BackupSelection {
            mode: BackupSelectionMode::Full,
            characters: Vec::new(),
            include_unassigned_audio: true,
        }
    }
}

/// The records a selection covers.
#[derive(Debug)]
pub struct BackupScope {
    pub mode: BackupSelectionMode,
    pub selected_character_ids: Vec<String>,
    pub selected_session_ids: Vec<String>,
    pub selected_group_session_ids: Vec<String>,
    pub selected_group_character_ids: Vec<String>,
}

impl BackupScope {
    /// No identifier is listed twice.
    pub open spec fn well_formed(&self) -> bool {
        &&& distinct_strings(self.selected_character_ids@)
        &&& distinct_strings(self.selected_session_ids@)
        &&& distinct_strings(self.selected_group_session_ids@)
        &&& distinct_strings(self.selected_group_character_ids@)
    }

    pub fn is_full(&self) -> (r: bool)
        ensures
            r == (self.mode == BackupSelectionMode::Full),
    {
        self.mode == BackupSelectionMode::Full
    }

    pub fn includes_character(&self, character_id: &str) -> (r: bool)
        ensures
            r == (self.mode == BackupSelectionMode::Full || str_set(
                self.selected_character_ids@,
            ).contains(character_id@)),
    {
        self.is_full() || contains_string(&self.selected_character_ids, character_id)
    }

    pub fn includes_session(&self, session_id: &str) -> (r: bool)
        ensures
            r == (self.mode == BackupSelectionMode::Full || str_set(
                self.selected_session_ids@,
            ).contains(session_id@)),
    {
        self.is_full() || contains_string(&self.selected_session_ids, session_id)
    }

    pub fn includes_group_session(&self, session_id: &str) -> (r: bool)
        ensures
            r == (self.mode == BackupSelectionMode::Full || str_set(
                self.selected_group_session_ids@,
            ).contains(session_id@)),
    {
        self.is_full() || contains_string(&self.selected_group_session_ids, session_id)
    }

    pub fn includes_group_character(&self, group_character_id: &str) -> (r: bool)
        ensures
            r == (self.mode == BackupSelectionMode::Full || str_set(
                self.selected_group_character_ids@,
            ).contains(group_character_id@)),
    {
        self.is_full() || contains_string(&self.selected_group_character_ids, group_character_id)
    }
}

/// The strings of a JSON array whose items are all strings, as `serde_json` reads a
/// `Vec<String>`; `None` for any other text.
pub uninterp spec fn json_string_list(raw: Seq<char>) -> Option<Seq<Seq<char>>>;

/// `serde_json::from_str::<Vec<String>>`.
#[verifier::external_body]
fn parse_string_list(raw: &str) -> (r: Option<Vec<String>>)
    ensures
        match r {
            Some(items) => json_string_list(raw@) == Some(string_views(items@)),
            None => json_string_list(raw@) is None,
        },
{
    serde_json::from_str::<Vec<String>>(raw).ok()
}

/// The character ids a stored JSON list names; none when the text is not such a list.
pub open spec fn character_id_set(raw: Seq<char>) -> Set<Seq<char>> {
    match json_string_list(raw) {
        Some(items) => items.to_set(),
        None => Set::empty(),
    }
}

pub fn parse_character_ids(raw: &str) -> (r: Vec<String>)
    ensures
        str_set(r@) == character_id_set(raw@),
        distinct_strings(r@),
{
    let mut out: Vec<String> = Vec::new();
    match parse_string_list(raw) {
        Some(items) => {
            let mut i: usize = 0;
            while i < items.len()
                invariant
                    i <= items.len(),
                    distinct_strings(out@),
                    str_set(out@) == string_views(items@).take(i as int).to_set(),
                decreases items.len() - i,
            {
                let ghost prev = out@;
                insert_string(&mut out, items[i].clone());
                proof {
                    let t = string_views(items@).take(i as int + 1);
                    assert(t =~= string_views(items@).take(i as int).push(items@[i as int]@));
                    assert(t.to_set() =~= string_views(items@).take(i as int).to_set().insert(
                        items@[i as int]@,
                    )) by {
                        string_views(items@).take(i as int).lemma_push_to_set_commute(
                            items@[i as int]@,
                        );
                    }
                }
                i += 1;
            }
            assert(string_views(items@).take(items.len() as int) =~= string_views(items@));
        },
        None => {
            assert(str_set(out@) =~= Set::<Seq<char>>::empty());
        },
    }
    out
}

/// The chosen characters that exist.
pub open spec fn chosen_characters(chosen: Seq<BackupCharacterSelection>, all: Set<Seq<char>>) -> Set<
    Seq<char>,
>
    decreases chosen.len(),
{
    if chosen.len() == 0 {
        Set::empty()
    } else {
        let rest = chosen_characters(chosen.drop_last(), all);
        if all.contains(chosen.last().character_id@) {
            rest.insert(chosen.last().character_id@)
        } else {
            rest
        }
    }
}

/// A backup never covers a character that is not stored: a custom selection's unknown ids
/// are dropped.
pub proof fn law_scope_within_known_characters(selection: BackupSelection, all: Set<Seq<char>>)
    ensures
        scope_characters(selection, all).subset_of(all),
{
    lemma_chosen_within(selection.characters@, all);
}

proof fn lemma_chosen_within(chosen: Seq<BackupCharacterSelection>, all: Set<Seq<char>>)
    ensures
        chosen_characters(chosen, all).subset_of(all),
    decreases chosen.len(),
{
    if chosen.len() > 0 {
        lemma_chosen_within(chosen.drop_last(), all);
    }
}

/// The characters a selection covers: all of them in a full backup, else the chosen ones.
pub open spec fn scope_characters(selection: BackupSelection, all: Set<Seq<char>>) -> Set<Seq<char>> {
    if selection.mode == BackupSelectionMode::Full {
        all
    } else {
        chosen_characters(selection.characters@, all)
    }
}

/// The sessions (`id`, `character_id`) of covered characters.
pub open spec fn scope_sessions(rows: Seq<(String, String)>, chars: Set<Seq<char>>) -> Set<Seq<char>>
    decreases rows.len(),
{
    if rows.len() == 0 {
        Set::empty()
    } else {
        let rest = scope_sessions(rows.drop_last(), chars);
        if chars.contains(rows.last().1@) {
            rest.insert(rows.last().0@)
        } else {
            rest
        }
    }
}

/// A group is covered when it names at least one character and only covered ones.
pub open spec fn group_covered(raw_ids: Seq<char>, chars: Set<Seq<char>>) -> bool {
    &&& !character_id_set(raw_ids).is_empty()
    &&& character_id_set(raw_ids).subset_of(chars)
}

/// The covered group sessions (`id`, `group_character_id`, `character_ids`).
pub open spec fn scope_group_sessions(
    rows: Seq<(String, Option<String>, String)>,
    chars: Set<Seq<char>>,
) -> Set<Seq<char>>
    decreases rows.len(),
{
    if rows.len() == 0 {
        Set::empty()
    } else {
        let rest = scope_group_sessions(rows.drop_last(), chars);
        if group_covered(rows.last().2@, chars) {
            rest.insert(rows.last().0@)
        } else {
            rest
        }
    }
}

/// The group characters of covered group sessions.
pub open spec fn session_group_characters(
    rows: Seq<(String, Option<String>, String)>,
    chars: Set<Seq<char>>,
) -> Set<Seq<char>>
    decreases rows.len(),
{
    if rows.len() == 0 {
        Set::empty()
    } else {
        let rest = session_group_characters(rows.drop_last(), chars);
        match rows.last().1 {
            Some(id) => if group_covered(rows.last().2@, chars) {
                rest.insert(id@)
            } else {
                rest
            },
            None => rest,
        }
    }
}

/// The covered group characters (`id`, `character_ids`).
pub open spec fn scope_group_characters(rows: Seq<(String, String)>, chars: Set<Seq<char>>) -> Set<
    Seq<char>,
>
    decreases rows.len(),
{
    if rows.len() == 0 {
        Set::empty()
    } else {
        let rest = scope_group_characters(rows.drop_last(), chars);
        if group_covered(rows.last().1@, chars) {
            rest.insert(rows.last().0@)
        } else {
            rest
        }
    }
}

fn is_group_covered(raw_ids: &str, chars: &Vec<String>) -> (r: bool)
    ensures
        r == group_covered(raw_ids@, str_set(chars@)),
{
    let ids = parse_character_ids(raw_ids);
    if ids.len() == 0 {
        assert(str_set(ids@) =~= Set::<Seq<char>>::empty());
        return false;
    }
    assert(str_set(ids@).contains(ids@[0]@));
    let mut i: usize = 0;
    while i < ids.len()
        invariant
            i <= ids.len(),
            str_set(ids@) == character_id_set(raw_ids@),
            forall|j: int| 0 <= j < i ==> str_set(chars@).contains((#[trigger] ids@[j])@),
        decreases ids.len() - i,
    {
        if !contains_string(chars, ids[i].as_str()) {
            assert(str_set(ids@).contains(ids@[i as int]@));
            return false;
        }
        i += 1;
    }
    assert(str_set(ids@).subset_of(str_set(chars@))) by {
        assert forall|x: Seq<char>| str_set(ids@).contains(x) implies str_set(chars@).contains(
            x,
        ) by {
            let j = choose|j: int| 0 <= j < ids@.len() && (#[trigger] ids@[j])@ == x;
        }
    }
    true
}

/// Resolves which records a selection covers, from the stored sessions, group sessions and
/// group characters.
pub fn resolve_scope(
    selection: &BackupSelection,
    all_character_ids: &Vec<String>,
    sessions: &Vec<(String, String)>,
    group_sessions: &Vec<(String, Option<String>, String)>,
    group_characters: &Vec<(String, String)>,
) -> (r: BackupScope)
    ensures
        r.well_formed(),
        r.mode == selection.mode,
        str_set(r.selected_character_ids@) == scope_characters(
            *selection,
            str_set(all_character_ids@),
        ),
        str_set(r.selected_session_ids@) == scope_sessions(
            sessions@,
            scope_characters(*selection, str_set(all_character_ids@)),
        ),
        str_set(r.selected_group_session_ids@) == scope_group_sessions(
            group_sessions@,
            scope_characters(*selection, str_set(all_character_ids@)),
        ),
        str_set(r.selected_group_character_ids@) == session_group_characters(
            group_sessions@,
            scope_characters(*selection, str_set(all_character_ids@)),
        ).union(
            scope_group_characters(
                group_characters@,
                scope_characters(*selection, str_set(all_character_ids@)),
            ),
        ),
{
    let ghost all = str_set(all_character_ids@);
    let mut chars: Vec<String> = Vec::new();
    if selection.mode == BackupSelectionMode::Full {
        let mut i: usize = 0;
        while i < all_character_ids.len()
            invariant
                i <= all_character_ids.len(),
                distinct_strings(chars@),
                str_set(chars@) == str_set(all_character_ids@.take(i as int)),
            decreases all_character_ids.len() - i,
        {
            insert_string(&mut chars, all_character_ids[i].clone());
            proof {
                let t = all_character_ids@.take(i as int + 1);
                assert(str_set(t) =~= str_set(all_character_ids@.take(i as int)).insert(
                    all_character_ids@[i as int]@,
                )) by {
                    assert forall|x: Seq<char>| str_set(t).contains(x) implies str_set(
                        all_character_ids@.take(i as int),
                    ).insert(all_character_ids@[i as int]@).contains(x) by {
                        let j = choose|j: int| 0 <= j < t.len() && (#[trigger] t[j])@ == x;
                        if j < i {
                            assert(all_character_ids@.take(i as int)[j] == t[j]);
                        }
                    }
                    assert forall|x: Seq<char>| str_set(all_character_ids@.take(i as int)).insert(
                        all_character_ids@[i as int]@,
                    ).contains(x) implies str_set(t).contains(x) by {
                        if x != all_character_ids@[i as int]@ {
                            let j = choose|j: int|
                                0 <= j < i && (#[trigger] all_character_ids@.take(
                                    i as int,
                                )[j])@ == x;
                            assert(t[j] == all_character_ids@.take(i as int)[j]);
                        } else {
                            assert(t[i as int] == all_character_ids@[i as int]);
                        }
                    }
                }
            }
            i += 1;
        }
        assert(all_character_ids@.take(all_character_ids.len() as int) =~= all_character_ids@);
    } else {
        let mut i: usize = 0;
        while i < selection.characters.len()
            invariant
                i <= selection.characters.len(),
                distinct_strings(chars@),
                str_set(chars@) == chosen_characters(
                    selection.characters@.take(i as int),
                    str_set(all_character_ids@),
                ),
            decreases selection.characters.len() - i,
        {
            assert(selection.characters@.take(i as int + 1).drop_last()
                =~= selection.characters@.take(i as int));
            let id = &selection.characters[i].character_id;
            if contains_string(all_character_ids, id.as_str()) {
                insert_string(&mut chars, id.clone());
            }
            i += 1;
        }
        assert(selection.characters@.take(selection.characters.len() as int)
            =~= selection.characters@);
    }
    let ghost covered = str_set(chars@);
    assert(covered == scope_characters(*selection, all));

    let mut session_ids: Vec<String> = Vec::new();
    let mut i: usize = 0;
    while i < sessions.len()
        invariant
            i <= sessions.len(),
            distinct_strings(session_ids@),
            str_set(chars@) == covered,
            str_set(session_ids@) == scope_sessions(sessions@.take(i as int), covered),
        decreases sessions.len() - i,
    {
        assert(sessions@.take(i as int + 1).drop_last() =~= sessions@.take(i as int));
        if contains_string(&chars, sessions[i].1.as_str()) {
            insert_string(&mut session_ids, sessions[i].0.clone());
        }
        i += 1;
    }
    assert(sessions@.take(sessions.len() as int) =~= sessions@);

    let mut group_session_ids: Vec<String> = Vec::new();
    let mut group_character_ids: Vec<String> = Vec::new();
    let mut i: usize = 0;
    while i < group_sessions.len()
        invariant
            i <= group_sessions.len(),
            distinct_strings(group_session_ids@),
            distinct_strings(group_character_ids@),
            str_set(chars@) == covered,
            str_set(group_session_ids@) == scope_group_sessions(
                group_sessions@.take(i as int),
                covered,
            ),
            str_set(group_character_ids@) == session_group_characters(
                group_sessions@.take(i as int),
                covered,
            ),
        decreases group_sessions.len() - i,
    {
        assert(group_sessions@.take(i as int + 1).drop_last() =~= group_sessions@.take(i as int));
        let row = &group_sessions[i];
        if is_group_covered(row.2.as_str(), &chars) {
            insert_string(&mut group_session_ids, row.0.clone());
            match &row.1 {
                Some(id) => insert_string(&mut group_character_ids, id.clone()),
                None => {},
            }
        }
        i += 1;
    }
    assert(group_sessions@.take(group_sessions.len() as int) =~= group_sessions@);
    let ghost from_sessions = str_set(group_character_ids@);

    let mut i: usize = 0;
    while i < group_characters.len()
        invariant
            i <= group_characters.len(),
            distinct_strings(group_character_ids@),
            str_set(chars@) == covered,
            str_set(group_character_ids@) == from_sessions.union(
                scope_group_characters(group_characters@.take(i as int), covered),
            ),
        decreases group_characters.len() - i,
    {
        assert(group_characters@.take(i as int + 1).drop_last() =~= group_characters@.take(
            i as int,
        ));
        let row = &group_characters[i];
        let ghost before = str_set(group_character_ids@);
        if is_group_covered(row.1.as_str(), &chars) {
            insert_string(&mut group_character_ids, row.0.clone());
            assert(str_set(group_character_ids@) =~= from_sessions.union(
                scope_group_characters(group_characters@.take(i as int + 1), covered),
            ));
        } else {
            assert(str_set(group_character_ids@) =~= from_sessions.union(
                scope_group_characters(group_characters@.take(i as int + 1), covered),
            ));
        }
        i += 1;
    }
    assert(group_characters@.take(group_characters.len() as int) =~= group_characters@);

    BackupScope {
        mode: selection.mode,
        selected_character_ids: chars,
        selected_session_ids: session_ids,
        selected_group_session_ids: group_session_ids,
        selected_group_character_ids: group_character_ids,
    }
}

// ---------------------------------------------------------------------------
// Archive names and file kinds
// ---------------------------------------------------------------------------

/// Backslashes turned into forward slashes (`replace('\\', "/")`).
pub open spec fn forward_slashes(s: Seq<char>) -> Seq<char> {
    s.map_values(|c: char| if c == '\\' { '/' } else { c })
}

pub fn to_forward_slashes(s: &str) -> (r: String)
    ensures
        r@ == forward_slashes(s@),
{
    let v = chars_of(s);
    let mut out = String::new();
    let mut i: usize = 0;
    while i < v.len()
        invariant
            i <= v.len(),
            out@ == forward_slashes(v@.take(i as int)),
        decreases v.len() - i,
    {
        let c = if v[i] == '\\' { '/' } else { v[i] };
        crate::text::push_char(&mut out, c);
        i += 1;
        assert(out@ =~= forward_slashes(v@.take(i as int)));
    }
    assert(v@.take(v.len() as int) =~= v@);
    out
}

/// `prefix/relative`, with the relative path's separators as forward slashes.
pub open spec fn archive_path_of(prefix: Seq<char>, relative: Seq<char>) -> Seq<char> {
    prefix + "/"@ + forward_slashes(relative)
}

pub fn archive_path(prefix: &str, relative: &str) -> (r: String)
    ensures
        r@ == archive_path_of(prefix@, relative@),
{
    let mut out = String::new();
    push_str(&mut out, prefix);
    push_str(&mut out, "/");
    let tail = to_forward_slashes(relative);
    push_str(&mut out, tail.as_str());
    out
}

/// The index of the last `c` in `s`, or -1.
pub open spec fn last_index_of(s: Seq<char>, c: char) -> int
    decreases s.len(),
{
    if s.len() == 0 {
        -1
    } else if s.last() == c {
        s.len() - 1
    } else {
        last_index_of(s.drop_last(), c)
    }
}

proof fn lemma_last_index_of(s: Seq<char>, c: char)
    ensures
        -1 <= last_index_of(s, c) < s.len(),
        last_index_of(s, c) >= 0 ==> s[last_index_of(s, c)] == c,
    decreases s.len(),
{
    if s.len() > 0 && s.last() != c {
        lemma_last_index_of(s.drop_last(), c);
    }
}

fn last_index(v: &Vec<char>, c: char) -> (r: Option<usize>)
    ensures
        match r {
            Some(i) => last_index_of(v@, c) == i as int,
            None => last_index_of(v@, c) == -1,
        },
{
    let mut end: usize = v.len();
    assert(v@.take(end as int) =~= v@);
    while end > 0
        invariant
            end <= v.len(),
            last_index_of(v@, c) == last_index_of(v@.take(end as int), c),
        decreases end,
    {
        if v[end - 1] == c {
            return Some(end - 1);
        }
        assert(v@.take(end as int).drop_last() =~= v@.take(end - 1));
        end -= 1;
    }
    None
}

/// The file name's extension as `Path::extension` reads it: the text after the name's last
/// dot, unless that dot starts the name or there is none.
pub open spec fn path_extension(path: Seq<char>) -> Option<Seq<char>> {
    let name = path.skip(last_index_of(path, '/') + 1);
    let dot = last_index_of(name, '.');
    if dot > 0 {
        Some(name.skip(dot + 1))
    } else {
        None
    }
}

fn extension_of(path: &str) -> (r: String)
    ensures
        r@ == match path_extension(path@) {
            Some(e) => crate::text::lower_seq(e),
            None => Seq::<char>::empty(),
        },
{
    let v = chars_of(path);
    proof {
        lemma_last_index_of(v@, '/');
    }
    let start: usize = match last_index(&v, '/') {
        Some(i) => i + 1,
        None => 0,
    };
    let name = crate::text::string_from_range(&v, start, v.len());
    let n = chars_of(name.as_str());
    assert(n@ =~= v@.skip(last_index_of(v@, '/') + 1));
    proof {
        lemma_last_index_of(n@, '.');
    }
    match last_index(&n, '.') {
        Some(dot) => if dot > 0 {
            let ext = crate::text::string_from_range(&n, dot + 1, n.len());
            assert(ext@ =~= n@.skip(dot + 1));
            crate::text::to_ascii_lowercase(ext.as_str())
        } else {
            String::new()
        },
        None => String::new(),
    }
}

/// Image files by extension: jpg, jpeg, png, gif, webp (any case).
pub open spec fn is_image_path(path: Seq<char>) -> bool {
    let e = match path_extension(path) {
        Some(e) => crate::text::lower_seq(e),
        None => Seq::empty(),
    };
    e == "jpg"@ || e == "jpeg"@ || e == "png"@ || e == "gif"@ || e == "webp"@
}

/// Audio files by extension: wav, mp3, ogg, flac, aac, aiff, m4a, pcm (any case).
pub open spec fn is_audio_path(path: Seq<char>) -> bool {
    let e = match path_extension(path) {
        Some(e) => crate::text::lower_seq(e),
        None => Seq::empty(),
    };
    e == "wav"@ || e == "mp3"@ || e == "ogg"@ || e == "flac"@ || e == "aac"@ || e == "aiff"@
        || e == "m4a"@ || e == "pcm"@
}

pub fn is_image(path: &str) -> (r: bool)
    ensures
        r == is_image_path(path@),
{
    let e = extension_of(path);
    let s = e.as_str();
    str_eq(s, "jpg") || str_eq(s, "jpeg") || str_eq(s, "png") || str_eq(s, "gif") || str_eq(
        s,
        "webp",
    )
}

pub fn is_audio(path: &str) -> (r: bool)
    ensures
        r == is_audio_path(path@),
{
    let e = extension_of(path);
    let s = e.as_str();
    str_eq(s, "wav") || str_eq(s, "mp3") || str_eq(s, "ogg") || str_eq(s, "flac") || str_eq(
        s,
        "aac",
    ) || str_eq(s, "aiff") || str_eq(s, "m4a") || str_eq(s, "pcm")
}

// ---------------------------------------------------------------------------
// Image ids and stored attachment paths
// ---------------------------------------------------------------------------

/// The extensions an image id is looked up with, in order.
pub open spec fn image_id_extensions() -> Seq<Seq<char>> {
    seq!["jpg"@, "jpeg"@, "png"@, "gif"@, "webp"@]
}

/// An image id names a stored image when, trimmed, it is not empty, not a data URL and holds
/// no `/`.
pub open spec fn usable_image_id(id: Seq<char>) -> bool {
    let t = crate::text::trim(id);
    t.len() > 0 && !crate::text::starts_with(t, "data:"@) && !t.contains('/')
}

/// The file names an image id may be stored under (`<id>.<extension>`), tried in order; the
/// first existing one is archived as `images/<file name>`.
pub fn image_file_candidates(image_id: &str) -> (r: Vec<String>)
    ensures
        usable_image_id(image_id@) ==> r@.len() == 5 && forall|k: int|
            0 <= k < 5 ==> (#[trigger] r@[k])@ == crate::text::trim(image_id@) + "."@
                + image_id_extensions()[k],
        !usable_image_id(image_id@) ==> r@.len() == 0,
{
    let id = crate::text::trimmed(image_id);
    let v = chars_of(id.as_str());
    let data = chars_of("data:");
    let mut out: Vec<String> = Vec::new();
    let slash = crate::text::find_char(&v, '/', 0);
    proof {
        crate::text::lemma_next_char(v@, '/', 0);
    }
    if v.len() == 0 || crate::text::starts_with_exec(&v, &data) || slash < v.len() {
        proof {
            if !(v.len() == 0 || crate::text::starts_with(v@, "data:"@)) {
                assert(v@[slash as int] == '/');
                assert(v@.contains('/'));
            }
        }
        return out;
    }
    proof {
        assert(!v@.contains('/')) by {
            if v@.contains('/') {
                let k = choose|k: int| 0 <= k < v@.len() && v@[k] == '/';
            }
        }
    }
    let extensions: [&str; 5] = ["jpg", "jpeg", "png", "gif", "webp"];
    let mut k: usize = 0;
    while k < 5
        invariant
            k <= 5,
            extensions@ == seq!["jpg", "jpeg", "png", "gif", "webp"],
            id@ == crate::text::trim(image_id@),
            out@.len() == k,
            forall|j: int|
                0 <= j < k ==> (#[trigger] out@[j])@ == crate::text::trim(image_id@) + "."@
                    + image_id_extensions()[j],
        decreases 5 - k,
    {
        let mut name = String::new();
        push_str(&mut name, id.as_str());
        push_str(&mut name, ".");
        push_str(&mut name, extensions[k]);
        out.push(name);
        k += 1;
    }
    out
}

/// A stored file an attachment path points to.
#[derive(Debug, Clone, Copy, PartialEq, Eq, Structural)]
pub enum MediaKind {
    Image,
    Audio,
}

/// Where an attachment path's file lies and how it is archived: under the generated-images
/// directory (`relative` is then the rest of the path) or under storage, archived under the
/// normalised path.
#[derive(Debug)]
pub struct StoragePathTarget {
    pub in_generated_images: bool,
    pub relative: String,
    pub archive_name: String,
    pub kind: MediaKind,
}

/// A `..` segment at `i`.
pub open spec fn parent_segment_at(p: Seq<char>, i: int) -> bool {
    &&& 0 <= i && i + 2 <= p.len()
    &&& p[i] == '.' && p[i + 1] == '.'
    &&& (i == 0 || p[i - 1] == '/')
    &&& (i + 2 == p.len() || p[i + 2] == '/')
}

/// A path that is absolute or climbs out with `..` is refused.
pub open spec fn escapes_storage(p: Seq<char>) -> bool {
    (p.len() > 0 && p[0] == '/') || exists|i: int| parent_segment_at(p, i)
}

pub open spec fn storage_path_target_of(relative: Seq<char>) -> Option<
    (bool, Seq<char>, Seq<char>, MediaKind),
> {
    let normalized = forward_slashes(relative);
    if escapes_storage(normalized) {
        None
    } else {
        let kind = if is_audio_path(normalized) {
            Some(MediaKind::Audio)
        } else if is_image_path(normalized) {
            Some(MediaKind::Image)
        } else {
            None
        };
        match kind {
            None => None,
            Some(kind) => if crate::text::starts_with(normalized, "generated_images/"@) {
                Some((true, normalized.skip(17), normalized, kind))
            } else {
                Some((false, normalized, normalized, kind))
            },
        }
    }
}

/// An attachment path is only ever archived, or read, inside storage: the names it gives use
/// forward slashes only, are relative, and never climb out with a `..` segment, both the name
/// in the archive and the path under its directory.
pub proof fn law_archived_paths_stay_inside(relative: Seq<char>)
    ensures
        storage_path_target_of(relative) matches Some((generated, rel, name, kind)) ==> {
            &&& forall|i: int| 0 <= i < name.len() ==> #[trigger] name[i] != '\\'
            &&& name.len() == 0 || name[0] != '/'
            &&& forall|i: int| !#[trigger] parent_segment_at(name, i)
            &&& forall|i: int| !#[trigger] parent_segment_at(rel, i)
            &&& rel.len() == 0 || rel[0] != '/' || generated
        },
{
    let normalized = forward_slashes(relative);
    if let Some((generated, rel, name, kind)) = storage_path_target_of(relative) {
        assert forall|i: int| 0 <= i < name.len() implies #[trigger] name[i] != '\\' by {
            assert(name[i] == normalized[i]);
        }
        assert forall|i: int| !#[trigger] parent_segment_at(rel, i) by {
            if generated {
                reveal_strlit("generated_images/");
                assert(crate::text::starts_with(normalized, "generated_images/"@));
                assert(normalized.subrange(0, 17) == "generated_images/"@);
                assert(normalized[16] == "generated_images/"@[16]);
                if parent_segment_at(rel, i) {
                    assert(rel[i] == normalized[i + 17] && rel[i + 1] == normalized[i + 18]);
                    if i > 0 {
                        assert(rel[i - 1] == normalized[i + 16]);
                    }
                    if i + 2 < rel.len() {
                        assert(rel[i + 2] == normalized[i + 19]);
                    }
                    assert(parent_segment_at(normalized, i + 17));
                }
            }
        }
    }
}

fn escapes(p: &Vec<char>) -> (r: bool)
    ensures
        r == escapes_storage(p@),
{
    if p.len() > 0 && p[0] == '/' {
        return true;
    }
    let mut i: usize = 0;
    while p.len() >= 2 && i <= p.len() - 2
        invariant
            i <= p.len(),
            !(p.len() > 0 && p@[0] == '/'),
            forall|j: int| 0 <= j < i ==> !parent_segment_at(p@, j),
        decreases p.len() + 2 - i,
    {
        if p[i] == '.' && p[i + 1] == '.' && (i == 0 || p[i - 1] == '/') && (i + 2 == p.len()
            || p[i + 2] == '/') {
            assert(parent_segment_at(p@, i as int));
            return true;
        }
        i += 1;
    }
    assert(forall|j: int| !parent_segment_at(p@, j)) by {
        assert forall|j: int| !parent_segment_at(p@, j) by {
            if 0 <= j < i {
            }
        }
    }
    false
}

/// Where a stored attachment path leads: `None` for paths outside storage and for files that
/// are neither audio nor images.
pub fn storage_path_target(relative: &str) -> (r: Option<StoragePathTarget>)
    ensures
        match storage_path_target_of(relative@) {
            None => r is None,
            Some((generated, rel, name, kind)) => r matches Some(t) && t.in_generated_images
                == generated && t.relative@ == rel && t.archive_name@ == name && t.kind == kind,
        },
{
    let normalized = to_forward_slashes(relative);
    let v = chars_of(normalized.as_str());
    if escapes(&v) {
        return None;
    }
    let kind = if is_audio(normalized.as_str()) {
        MediaKind::Audio
    } else if is_image(normalized.as_str()) {
        MediaKind::Image
    } else {
        return None;
    };
    let prefix = chars_of("generated_images/");
    proof {
        reveal_strlit("generated_images/");
    }
    if crate::text::starts_with_exec(&v, &prefix) {
        let rest = crate::text::string_from_range(&v, 17, v.len());
        assert(rest@ =~= v@.skip(17));
        Some(StoragePathTarget {
            in_generated_images: true,
            relative: rest,
            archive_name: normalized.clone(),
            kind,
        })
    } else {
        Some(StoragePathTarget {
            in_generated_images: false,
            relative: normalized.clone(),
            archive_name: normalized,
            kind,
        })
    }
}

/// The path a member carries: the string value of a `storagePath` or `storage_path` key,
/// with forward slashes.
pub open spec fn member_storage_path(key: Seq<char>, value: JsonV) -> Option<Seq<char>> {
    if key == "storagePath"@ || key == "storage_path"@ {
        match value {
            JsonV::Str(s) => Some(forward_slashes(s)),
            _ => None,
        }
    } else {
        None
    }
}

/// Every storage path a document carries, at any depth.
pub open spec fn attachment_storage_paths(v: JsonV) -> Set<Seq<char>>
    decreases v, 0int,
{
    match v {
        JsonV::Array(a) => items_paths(a),
        JsonV::Object(m) => members_paths(m),
        _ => Set::empty(),
    }
}

/// The storage paths of the items of an array.
pub open spec fn items_paths(a: Seq<JsonV>) -> Set<Seq<char>>
    decreases a, 1int,
{
    if a.len() == 0 {
        Set::empty()
    } else {
        proof {
            assert(decreases_to!(a => a.subrange(0, a.len() - 1)));
        }
        items_paths(a.drop_last()).union(attachment_storage_paths(a.last()))
    }
}

/// The storage paths of an object's members, each member's own first.
pub open spec fn members_paths(m: Seq<(Seq<char>, JsonV)>) -> Set<Seq<char>>
    decreases m, 1int,
{
    if m.len() == 0 {
        Set::empty()
    } else {
        proof {
            assert(decreases_to!(m => m.subrange(0, m.len() - 1)));
        }
        let own = match member_storage_path(m.last().0, m.last().1) {
            Some(p) => Set::empty().insert(p),
            None => Set::empty(),
        };
        members_paths(m.drop_last()).union(own).union(attachment_storage_paths(m.last().1))
    }
}

fn member_path(key: &str, value: &Json) -> (r: Option<String>)
    ensures
        match r {
            Some(p) => member_storage_path(key@, value@) == Some(p@),
            None => member_storage_path(key@, value@) is None,
        },
{
    if str_eq(key, "storagePath") || str_eq(key, "storage_path") {
        match value {
            Json::Str(s) => Some(to_forward_slashes(s.as_str())),
            _ => None,
        }
    } else {
        None
    }
}

/// Adds every storage path an attachment document carries.
pub fn collect_attachment_storage_paths(value: &Json, paths: &mut Vec<String>)
    requires
        distinct_strings(old(paths)@),
    ensures
        distinct_strings(final(paths)@),
        str_set(final(paths)@) == str_set(old(paths)@).union(attachment_storage_paths(value@)),
    decreases value,
{
    let ghost start = str_set(paths@);
    proof {
        value.lemma_array_view();
    }
    match value {
        Json::Array(items) => {
            let ghost a = views(items@);
            let mut i: usize = 0;
            while i < items.len()
                invariant
                    i <= items.len(),
                    *value == Json::Array(*items),
                    value@ == JsonV::Array(a),
                    a == views(items@),
                    distinct_strings(paths@),
                    str_set(paths@) == start.union(items_paths(a.take(i as int))),
                decreases items.len() - i,
            {
                proof {
                    assert(decreases_to!(*value => value->Array_0));
                    assert(decreases_to!(value->Array_0 => value->Array_0@));
                    assert(decreases_to!(value->Array_0@ => items@[i as int]));
                }
                collect_attachment_storage_paths(&items[i], paths);
                proof {
                    let t = a.take(i + 1);
                    assert(t.drop_last() =~= a.take(i as int));
                    assert(t.last() == items@[i as int]@);
                    assert(str_set(paths@) =~= start.union(items_paths(t)));
                }
                i += 1;
            }
            assert(a.take(items.len() as int) =~= a);
        },
        Json::Object(m) => {
            let ghost mv = member_views(m@);
            let mut i: usize = 0;
            while i < m.len()
                invariant
                    i <= m.len(),
                    *value == Json::Object(*m),
                    value@ == JsonV::Object(mv),
                    mv == member_views(m@),
                    distinct_strings(paths@),
                    str_set(paths@) == start.union(members_paths(mv.take(i as int))),
                decreases m.len() - i,
            {
                proof {
                    assert(decreases_to!(*value => value->Object_0));
                    assert(decreases_to!(value->Object_0 => value->Object_0@));
                    assert(decreases_to!(value->Object_0@ => m@[i as int]));
                    assert(decreases_to!(m@[i as int] => m@[i as int].1));
                }
                let ghost before = str_set(paths@);
                match member_path(m[i].0.as_str(), &m[i].1) {
                    Some(p) => insert_string(paths, p),
                    None => {},
                }
                collect_attachment_storage_paths(&m[i].1, paths);
                proof {
                    let t = mv.take(i + 1);
                    assert(t.drop_last() =~= mv.take(i as int));
                    assert(t.last() == (m@[i as int].0@, m@[i as int].1@));
                    assert(str_set(paths@) =~= start.union(members_paths(t)));
                }
                i += 1;
            }
            assert(mv.take(m.len() as int) =~= mv);
        },
        _ => {
            assert(str_set(paths@) =~= start.union(attachment_storage_paths(value@)));
        },
    }
}

// ---------------------------------------------------------------------------
// Archive file sets
// ---------------------------------------------------------------------------

/// A file to archive: where it is read from, its name in the archive, and its size.
#[derive(Debug, Clone)]
pub struct BackupArchiveFile {
    pub source_path: String,
    pub archive_name: String,
    pub size_bytes: u64,
}

impl BackupArchiveFile {
    pub open spec fn entry(self) -> (Seq<char>, u64) {
        (self.source_path@, self.size_bytes)
    }

    pub fn duplicate(&self) -> (r: BackupArchiveFile)
        ensures
            r.source_path@ == self.source_path@,
            r.archive_name@ == self.archive_name@,
            r.size_bytes == self.size_bytes,
    {
        BackupArchiveFile {
            source_path: self.source_path.clone(),
            archive_name: self.archive_name.clone(),
            size_bytes: self.size_bytes,
        }
    }
}

/// Files keyed by archive name; a later file replaces an earlier one of the same name.
pub open spec fn file_map(files: Seq<BackupArchiveFile>) -> Map<Seq<char>, (Seq<char>, u64)>
    decreases files.len(),
{
    if files.len() == 0 {
        Map::empty()
    } else {
        file_map(files.drop_last()).insert(files.last().archive_name@, files.last().entry())
    }
}

/// No archive name occurs twice.
pub open spec fn unique_names(files: Seq<BackupArchiveFile>) -> bool {
    forall|i: int, j: int|
        0 <= i < j < files.len() ==> (#[trigger] files[i]).archive_name@ != (#[trigger] files[j]).archive_name@
}

proof fn lemma_file_map_domain(files: Seq<BackupArchiveFile>)
    ensures
        forall|n: Seq<char>| #[trigger]
            file_map(files).dom().contains(n) <==> exists|i: int|
                0 <= i < files.len() && (#[trigger] files[i]).archive_name@ == n,
        file_map(files).dom().finite(),
    decreases files.len(),
{
    if files.len() > 0 {
        let rest = files.drop_last();
        lemma_file_map_domain(rest);
        assert forall|n: Seq<char>| #[trigger]
            file_map(files).dom().contains(n) <==> exists|i: int|
                0 <= i < files.len() && (#[trigger] files[i]).archive_name@ == n by {
            if file_map(files).dom().contains(n) && n != files.last().archive_name@ {
                let i = choose|i: int| 0 <= i < rest.len() && (#[trigger] rest[i]).archive_name@ == n;
                assert(files[i] == rest[i]);
            }
            if exists|i: int| 0 <= i < files.len() && (#[trigger] files[i]).archive_name@ == n {
                let i = choose|i: int| 0 <= i < files.len() && (#[trigger] files[i]).archive_name@ == n;
                if i < files.len() - 1 {
                    assert(rest[i] == files[i]);
                }
            }
        }
    }
}

proof fn lemma_file_map_at(files: Seq<BackupArchiveFile>, i: int)
    requires
        unique_names(files),
        0 <= i < files.len(),
    ensures
        file_map(files).dom().contains(files[i].archive_name@),
        file_map(files)[files[i].archive_name@] == files[i].entry(),
    decreases files.len(),
{
    lemma_file_map_domain(files);
    if i < files.len() - 1 {
        let rest = files.drop_last();
        assert(rest[i] == files[i]);
        lemma_file_map_at(rest, i);
    }
}

proof fn lemma_file_map_update(files: Seq<BackupArchiveFile>, i: int, f: BackupArchiveFile)
    requires
        unique_names(files),
        0 <= i < files.len(),
        files[i].archive_name@ == f.archive_name@,
    ensures
        unique_names(files.update(i, f)),
        file_map(files.update(i, f)) == file_map(files).insert(f.archive_name@, f.entry()),
    decreases files.len(),
{
    let u = files.update(i, f);
    assert(unique_names(u)) by {
        assert forall|a: int, b: int| 0 <= a < b < u.len() implies (#[trigger] u[a]).archive_name@
            != (#[trigger] u[b]).archive_name@ by {
            assert(files[a].archive_name@ != files[b].archive_name@);
        }
    }
    if i == files.len() - 1 {
        assert(u.drop_last() =~= files.drop_last());
        assert(file_map(u) =~= file_map(files).insert(f.archive_name@, f.entry()));
    } else {
        let rest = files.drop_last();
        lemma_file_map_update(rest, i, f);
        assert(u.drop_last() =~= rest.update(i, f));
        assert(files.last().archive_name@ != f.archive_name@) by {
            assert(files[i].archive_name@ != files[files.len() - 1].archive_name@);
        }
        assert(file_map(u) =~= file_map(files).insert(f.archive_name@, f.entry()));
    }
}

fn name_position(files: &Vec<BackupArchiveFile>, name: &str) -> (r: Option<usize>)
    ensures
        match r {
            Some(i) => i < files.len() && files@[i as int].archive_name@ == name@,
            None => forall|i: int| 0 <= i < files.len() ==> (#[trigger] files@[i]).archive_name@ != name@,
        },
{
    let mut i: usize = 0;
    while i < files.len()
        invariant
            i <= files.len(),
            forall|j: int| 0 <= j < i ==> (#[trigger] files@[j]).archive_name@ != name@,
        decreases files.len() - i,
    {
        if str_eq(files[i].archive_name.as_str(), name) {
            return Some(i);
        }
        i += 1;
    }
    None
}

/// Adds a file unless one of the same archive name is present (`entry(..).or_insert(..)`).
pub fn add_file_if_absent(files: &mut Vec<BackupArchiveFile>, file: BackupArchiveFile)
    requires
        unique_names(old(files)@),
    ensures
        unique_names(final(files)@),
        file_map(final(files)@) == if file_map(old(files)@).dom().contains(file.archive_name@) {
            file_map(old(files)@)
        } else {
            file_map(old(files)@).insert(file.archive_name@, file.entry())
        },
{
    proof {
        lemma_file_map_domain(files@);
    }
    match name_position(files, file.archive_name.as_str()) {
        Some(_) => {},
        None => {
            let ghost prev = files@;
            files.push(file);
            assert(files@.drop_last() =~= prev);
            assert(unique_names(files@)) by {
                assert forall|a: int, b: int| 0 <= a < b < files@.len() implies (
                #[trigger] files@[a]).archive_name@ != (#[trigger] files@[b]).archive_name@ by {
                    if b < prev.len() {
                        assert(prev[a] == files@[a] && prev[b] == files@[b]);
                    } else {
                        assert(prev[a] == files@[a]);
                    }
                }
            }
        },
    }
}

/// Adds a file, replacing one of the same archive name (`HashMap::insert`).
pub fn add_file_replacing(files: &mut Vec<BackupArchiveFile>, file: BackupArchiveFile)
    requires
        unique_names(old(files)@),
    ensures
        unique_names(final(files)@),
        file_map(final(files)@) == file_map(old(files)@).insert(file.archive_name@, file.entry()),
{
    match name_position(files, file.archive_name.as_str()) {
        Some(i) => {
            proof {
                lemma_file_map_update(files@, i as int, file);
            }
            files.set(i, file);
        },
        None => {
            let ghost prev = files@;
            files.push(file);
            assert(files@.drop_last() =~= prev);
            assert(unique_names(files@)) by {
                assert forall|a: int, b: int| 0 <= a < b < files@.len() implies (
                #[trigger] files@[a]).archive_name@ != (#[trigger] files@[b]).archive_name@ by {
                    if b < prev.len() {
                        assert(prev[a] == files@[a] && prev[b] == files@[b]);
                    } else {
                        assert(prev[a] == files@[a]);
                    }
                }
            }
        },
    }
}

/// Adds every file of `source`, each replacing one of the same name (`HashMap::extend`).
pub fn extend_files(files: &mut Vec<BackupArchiveFile>, source: &Vec<BackupArchiveFile>)
    requires
        unique_names(old(files)@),
    ensures
        unique_names(final(files)@),
        file_map(final(files)@) == file_map(old(files)@).union_prefer_right(file_map(source@)),
{
    let ghost start = file_map(files@);
    let mut i: usize = 0;
    while i < source.len()
        invariant
            i <= source.len(),
            unique_names(files@),
            file_map(files@) == start.union_prefer_right(file_map(source@.take(i as int))),
        decreases source.len() - i,
    {
        let f = source[i].duplicate();
        assert(f.entry() == source@[i as int].entry());
        add_file_replacing(files, f);
        proof {
            let t = source@.take(i + 1);
            assert(t.drop_last() =~= source@.take(i as int));
            assert(file_map(files@) =~= start.union_prefer_right(file_map(t)));
        }
        i += 1;
    }
    assert(source@.take(source.len() as int) =~= source@);
}

// ---------------------------------------------------------------------------
// Ordering by archive name
// ---------------------------------------------------------------------------

/// String order (`str::cmp`): character by character, a proper prefix first.
pub open spec fn name_before(a: Seq<char>, b: Seq<char>) -> bool
    decreases a.len(),
{
    if a.len() == 0 {
        b.len() > 0
    } else if b.len() == 0 {
        false
    } else if a[0] != b[0] {
        a[0] < b[0]
    } else {
        name_before(a.drop_first(), b.drop_first())
    }
}

proof fn lemma_name_order(a: Seq<char>, b: Seq<char>, c: Seq<char>)
    ensures
        !name_before(a, a),
        a != b ==> name_before(a, b) || name_before(b, a),
        name_before(a, b) ==> !name_before(b, a),
        name_before(a, b) && name_before(b, c) ==> name_before(a, c),
    decreases a.len(),
{
    if a.len() > 0 && b.len() > 0 && c.len() > 0 {
        lemma_name_order(a.drop_first(), b.drop_first(), c.drop_first());
        if a != b && a[0] == b[0] {
            assert(a.drop_first() != b.drop_first()) by {
                if a.drop_first() == b.drop_first() {
                    assert(a =~= seq![a[0]] + a.drop_first());
                    assert(b =~= seq![b[0]] + b.drop_first());
                }
            }
        }
    } else if a.len() > 0 && b.len() > 0 {
        lemma_name_order(a.drop_first(), b.drop_first(), a.drop_first());
        if a != b && a[0] == b[0] {
            assert(a.drop_first() != b.drop_first()) by {
                if a.drop_first() == b.drop_first() {
                    assert(a =~= seq![a[0]] + a.drop_first());
                    assert(b =~= seq![b[0]] + b.drop_first());
                }
            }
        }
    } else if a.len() > 0 {
        lemma_name_order(a.drop_first(), a.drop_first(), a.drop_first());
    } else if b.len() == 0 {
        assert(a =~= b);
    }
}

fn name_less(a: &Vec<char>, b: &Vec<char>) -> (r: bool)
    ensures
        r == name_before(a@, b@),
{
    let mut i: usize = 0;
    assert(a@.skip(0) =~= a@ && b@.skip(0) =~= b@);
    while i < a.len() && i < b.len() && a[i] == b[i]
        invariant
            i <= a.len(),
            i <= b.len(),
            name_before(a@, b@) == name_before(a@.skip(i as int), b@.skip(i as int)),
        decreases a.len() - i,
    {
        assert(a@.skip(i as int).drop_first() =~= a@.skip(i + 1));
        assert(b@.skip(i as int).drop_first() =~= b@.skip(i + 1));
        i += 1;
    }
    if i == a.len() {
        i < b.len()
    } else if i == b.len() {
        false
    } else {
        a[i] < b[i]
    }
}

/// Names strictly increase along the files.
pub open spec fn sorted_by_name(files: Seq<BackupArchiveFile>) -> bool {
    forall|i: int, j: int|
        0 <= i < j < files.len() ==> name_before(
            (#[trigger] files[i]).archive_name@,
            (#[trigger] files[j]).archive_name@,
        )
}

proof fn lemma_same_map(s: Seq<BackupArchiveFile>, t: Seq<BackupArchiveFile>, m: Map<Seq<char>, (Seq<char>, u64)>)
    requires
        unique_names(t),
        forall|n: Seq<char>| #[trigger] m.dom().contains(n) <==> exists|i: int|
            0 <= i < t.len() && (#[trigger] t[i]).archive_name@ == n,
        forall|i: int| 0 <= i < t.len() ==> m[(#[trigger] t[i]).archive_name@] == t[i].entry(),
        s == t,
    ensures
        file_map(s) == m,
{
    lemma_file_map_domain(t);
    assert forall|n: Seq<char>| #[trigger] m.dom().contains(n) implies file_map(t)[n] == m[n] by {
        let i = choose|i: int| 0 <= i < t.len() && (#[trigger] t[i]).archive_name@ == n;
        lemma_file_map_at(t, i);
    }
    assert(file_map(t) =~= m);
}

/// The files in archive-name order.
pub fn sort_by_name(files: Vec<BackupArchiveFile>) -> (r: Vec<BackupArchiveFile>)
    requires
        unique_names(files@),
    ensures
        unique_names(r@),
        sorted_by_name(r@),
        file_map(r@) == file_map(files@),
        r.len() == files.len(),
{
    let mut out: Vec<BackupArchiveFile> = Vec::new();
    let mut i: usize = 0;
    while i < files.len()
        invariant
            i <= files.len(),
            unique_names(files@),
            unique_names(out@),
            sorted_by_name(out@),
            out.len() == i,
            file_map(out@) == file_map(files@.take(i as int)),
        decreases files.len() - i,
    {
        let f = files[i].duplicate();
        let fname = chars_of(f.archive_name.as_str());
        let mut p: usize = 0;
        while p < out.len() && !name_less(&fname, &chars_of(out[p].archive_name.as_str()))
            invariant
                p <= out.len(),
                fname@ == f.archive_name@,
                forall|k: int| 0 <= k < p ==> !name_before(fname@, (#[trigger] out@[k]).archive_name@),
            decreases out.len() - p,
        {
            p += 1;
        }
        let ghost prev = out@;
        proof {
            lemma_file_map_domain(files@.take(i as int));
            lemma_file_map_domain(prev);
            assert forall|k: int| 0 <= k < prev.len() implies (#[trigger] prev[k]).archive_name@
                != f.archive_name@ by {
                assert(file_map(prev).dom().contains(prev[k].archive_name@));
                let j = choose|j: int|
                    0 <= j < i && (#[trigger] files@.take(i as int)[j]).archive_name@
                        == prev[k].archive_name@;
                assert(files@[j].archive_name@ != files@[i as int].archive_name@);
            }
        }
        out.insert(p, f);
        proof {
            let q = p as int;
            assert forall|a: int, b: int| 0 <= a < b < out@.len() implies name_before(
                (#[trigger] out@[a]).archive_name@,
                (#[trigger] out@[b]).archive_name@,
            ) by {
                if b < q {
                    assert(out@[a] == prev[a] && out@[b] == prev[b]);
                } else if b == q {
                    assert(out@[a] == prev[a]);
                    lemma_name_order(prev[a].archive_name@, f.archive_name@, f.archive_name@);
                } else if a == q {
                    assert(out@[b] == prev[b - 1]);
                    if b - 1 > q {
                        assert(name_before(prev[q].archive_name@, prev[b - 1].archive_name@));
                        lemma_name_order(f.archive_name@, prev[q].archive_name@, prev[b - 1].archive_name@);
                    }
                } else if a < q {
                    assert(out@[a] == prev[a] && out@[b] == prev[b - 1]);
                } else {
                    assert(out@[a] == prev[a - 1] && out@[b] == prev[b - 1]);
                }
            }
            assert(unique_names(out@)) by {
                assert forall|a: int, b: int| 0 <= a < b < out@.len() implies (
                #[trigger] out@[a]).archive_name@ != (#[trigger] out@[b]).archive_name@ by {
                    lemma_name_order(out@[a].archive_name@, out@[b].archive_name@, out@[b].archive_name@);
                }
            }
            let t = files@.take(i + 1);
            assert(t.drop_last() =~= files@.take(i as int));
            assert(unique_names(t)) by {
                assert forall|a: int, b: int| 0 <= a < b < t.len() implies (
                #[trigger] t[a]).archive_name@ != (#[trigger] t[b]).archive_name@ by {
                    assert(t[a] == files@[a] && t[b] == files@[b]);
                }
            }
            let m = file_map(t);
            lemma_file_map_domain(t);
            assert forall|n: Seq<char>| #[trigger] m.dom().contains(n) <==> exists|k: int|
                0 <= k < out@.len() && (#[trigger] out@[k]).archive_name@ == n by {
                if m.dom().contains(n) {
                    if n == f.archive_name@ {
                        assert(out@[q].archive_name@ == n);
                    } else {
                        assert(file_map(prev).dom().contains(n));
                        let k = choose|k: int| 0 <= k < prev.len() && (#[trigger] prev[k]).archive_name@ == n;
                        if k < q {
                            assert(out@[k] == prev[k]);
                        } else {
                            assert(out@[k + 1] == prev[k]);
                        }
                    }
                }
                if exists|k: int| 0 <= k < out@.len() && (#[trigger] out@[k]).archive_name@ == n {
                    let k = choose|k: int| 0 <= k < out@.len() && (#[trigger] out@[k]).archive_name@ == n;
                    if k < q {
                        assert(out@[k] == prev[k]);
                        assert(file_map(prev).dom().contains(n));
                    } else if k > q {
                        assert(out@[k] == prev[k - 1]);
                        assert(file_map(prev).dom().contains(n));
                    }
                }
            }
            assert forall|k: int| 0 <= k < out@.len() implies m[(#[trigger] out@[k]).archive_name@]
                == out@[k].entry() by {
                if k == q {
                } else {
                    let pk = if k < q { k } else { k - 1 };
                    assert(out@[k] == prev[pk]);
                    lemma_file_map_at(prev, pk);
                    assert(prev[pk].archive_name@ != f.archive_name@);
                }
            }
            lemma_same_map(out@, out@, m);
        }
        i += 1;
    }
    assert(files@.take(files.len() as int) =~= files@);
    out
}

/// Archive files keyed by name, at most one per name.
pub struct FileSet {
    files: Vec<BackupArchiveFile>,
}

impl View for FileSet {
    type V = Map<Seq<char>, (Seq<char>, u64)>;

    closed spec fn view(&self) -> Map<Seq<char>, (Seq<char>, u64)> {
        file_map(self.files@)
    }
}

impl FileSet {
    #[verifier::type_invariant]
    spec fn names_unique(self) -> bool {
        unique_names(self.files@)
    }

    /// The files, in the order they were first added.
    pub closed spec fn items(self) -> Seq<BackupArchiveFile> {
        self.files@
    }

    pub fn new() -> (r: FileSet)
        ensures
            r@ == Map::<Seq<char>, (Seq<char>, u64)>::empty(),
            r.items().len() == 0,
    {
        FileSet { files: Vec::new() }
    }

    pub fn len(&self) -> (r: usize)
        ensures
            r == self.items().len(),
    {
        self.files.len()
    }

    pub fn files(&self) -> (r: &Vec<BackupArchiveFile>)
        ensures
            r@ == self.items(),
    {
        &self.files
    }

    /// Adds a file unless one of the same name is present (`entry(..).or_insert(..)`).
    pub fn add_if_absent(&mut self, file: BackupArchiveFile)
        ensures
            final(self)@ == if old(self)@.dom().contains(file.archive_name@) {
                old(self)@
            } else {
                old(self)@.insert(file.archive_name@, file.entry())
            },
    {
        proof {
            use_type_invariant(&*self);
        }
        let mut files: Vec<BackupArchiveFile> = Vec::new();
        std::mem::swap(&mut files, &mut self.files);
        add_file_if_absent(&mut files, file);
        self.files = files;
    }

    /// Adds a file, replacing one of the same name (`HashMap::insert`).
    pub fn add_replacing(&mut self, file: BackupArchiveFile)
        ensures
            final(self)@ == old(self)@.insert(file.archive_name@, file.entry()),
    {
        proof {
            use_type_invariant(&*self);
        }
        let mut files: Vec<BackupArchiveFile> = Vec::new();
        std::mem::swap(&mut files, &mut self.files);
        add_file_replacing(&mut files, file);
        self.files = files;
    }

    /// Adds every file of `other`, replacing files of the same names (`HashMap::extend`).
    pub fn extend(&mut self, other: &FileSet)
        ensures
            final(self)@ == old(self)@.union_prefer_right(other@),
    {
        proof {
            use_type_invariant(&*self);
        }
        let mut files: Vec<BackupArchiveFile> = Vec::new();
        std::mem::swap(&mut files, &mut self.files);
        extend_files(&mut files, &other.files);
        self.files = files;
    }

    /// The files in archive-name order.
    pub fn into_sorted(self) -> (r: Vec<BackupArchiveFile>)
        ensures
            unique_names(r@),
            sorted_by_name(r@),
            file_map(r@) == self@,
            r.len() == self.items().len(),
    {
        proof {
            use_type_invariant(&self);
        }
        sort_by_name(self.files)
    }

    /// The summed sizes, saturating at `u64::MAX`.
    pub fn total_bytes(&self) -> (r: u64)
        ensures
            r == capped(size_sum(self.items())),
    {
        sum_sizes(&self.files)
    }

    pub fn duplicate(&self) -> (r: FileSet)
        ensures
            r@ == self@,
            r.items().len() == self.items().len(),
    {
        let mut out = FileSet::new();
        out.extend(self);
        proof {
            use_type_invariant(self);
            use_type_invariant(&out);
            assert(Map::<Seq<char>, (Seq<char>, u64)>::empty().union_prefer_right(self@) =~= self@);
        }
        let ghost m = out@;
        proof {
            lemma_file_map_domain(out.files@);
            lemma_file_map_domain(self.files@);
            lemma_unique_len(out.files@, self.files@);
        }
        out
    }
}

proof fn lemma_unique_len(s: Seq<BackupArchiveFile>, t: Seq<BackupArchiveFile>)
    requires
        unique_names(s),
        unique_names(t),
        file_map(s).dom() == file_map(t).dom(),
    ensures
        s.len() == t.len(),
{
    lemma_unique_dom_len(s);
    lemma_unique_dom_len(t);
}

proof fn lemma_unique_dom_len(s: Seq<BackupArchiveFile>)
    requires
        unique_names(s),
    ensures
        file_map(s).dom().len() == s.len(),
    decreases s.len(),
{
    if s.len() > 0 {
        let rest = s.drop_last();
        assert(unique_names(rest)) by {
            assert forall|a: int, b: int| 0 <= a < b < rest.len() implies (
            #[trigger] rest[a]).archive_name@ != (#[trigger] rest[b]).archive_name@ by {
                assert(rest[a] == s[a] && rest[b] == s[b]);
            }
        }
        lemma_unique_dom_len(rest);
        lemma_file_map_domain(rest);
        assert(!file_map(rest).dom().contains(s.last().archive_name@)) by {
            if file_map(rest).dom().contains(s.last().archive_name@) {
                let i = choose|i: int|
                    0 <= i < rest.len() && (#[trigger] rest[i]).archive_name@ == s.last().archive_name@;
                assert(s[i].archive_name@ != s[s.len() - 1].archive_name@);
            }
        }
    }
}

/// The plain sum of file sizes.
pub open spec fn size_sum(files: Seq<BackupArchiveFile>) -> int
    decreases files.len(),
{
    if files.len() == 0 {
        0
    } else {
        size_sum(files.drop_last()) + files.last().size_bytes
    }
}

/// A byte count capped at `u64::MAX`, as saturating sums give it.
pub open spec fn capped(n: int) -> u64 {
    if n > u64::MAX {
        u64::MAX
    } else if n < 0 {
        0
    } else {
        n as u64
    }
}

proof fn lemma_size_sum_nonneg(files: Seq<BackupArchiveFile>)
    ensures
        size_sum(files) >= 0,
    decreases files.len(),
{
    if files.len() > 0 {
        lemma_size_sum_nonneg(files.drop_last());
    }
}

fn sum_sizes(files: &Vec<BackupArchiveFile>) -> (r: u64)
    ensures
        r == capped(size_sum(files@)),
{
    let mut total: u64 = 0;
    let mut i: usize = 0;
    while i < files.len()
        invariant
            i <= files.len(),
            total == capped(size_sum(files@.take(i as int))),
        decreases files.len() - i,
    {
        proof {
            let t = files@.take(i + 1);
            assert(t.drop_last() =~= files@.take(i as int));
            lemma_size_sum_nonneg(files@.take(i as int));
        }
        total = total.saturating_add(files[i].size_bytes);
        i += 1;
    }
    assert(files@.take(files.len() as int) =~= files@);
    total
}

// ---------------------------------------------------------------------------
// Cached speech audio
// ---------------------------------------------------------------------------

/// The known characters a cached clip's key is referenced for (`cache_key`, `character_id`).
pub open spec fn tts_owner_set(
    references: Seq<(String, String)>,
    all: Set<Seq<char>>,
    cache_key: Seq<char>,
) -> Set<Seq<char>>
    decreases references.len(),
{
    if references.len() == 0 {
        Set::empty()
    } else {
        let rest = tts_owner_set(references.drop_last(), all, cache_key);
        let (key, owner) = references.last();
        if key@ == cache_key && all.contains(owner@) {
            rest.insert(owner@)
        } else {
            rest
        }
    }
}

pub fn tts_owners(references: &Vec<(String, String)>, all_character_ids: &Vec<String>, cache_key: &str) -> (r:
    Vec<String>)
    ensures
        distinct_strings(r@),
        str_set(r@) == tts_owner_set(references@, str_set(all_character_ids@), cache_key@),
{
    let mut out: Vec<String> = Vec::new();
    let mut i: usize = 0;
    while i < references.len()
        invariant
            i <= references.len(),
            distinct_strings(out@),
            str_set(out@) == tts_owner_set(
                references@.take(i as int),
                str_set(all_character_ids@),
                cache_key@,
            ),
        decreases references.len() - i,
    {
        assert(references@.take(i + 1).drop_last() =~= references@.take(i as int));
        let (key, owner) = &references[i];
        if str_eq(key.as_str(), cache_key) && contains_string(all_character_ids, owner.as_str()) {
            insert_string(&mut out, owner.clone());
        }
        i += 1;
    }
    assert(references@.take(references.len() as int) =~= references@);
    out
}

/// A cached clip's archive name: `tts_audio/<file name>`.
pub fn tts_archive_name(filename: &str) -> (r: String)
    ensures
        r@ == "tts_audio/"@ + filename@,
{
    let mut out = String::new();
    push_str(&mut out, "tts_audio/");
    push_str(&mut out, filename);
    out
}

/// A cached clip and the characters it belongs to.
pub struct TtsClip {
    pub file: BackupArchiveFile,
    pub owners: Vec<String>,
}

/// A name-keyed set after `entry(..).or_insert(..)`.
pub open spec fn or_insert(
    m: Map<Seq<char>, (Seq<char>, u64)>,
    file: BackupArchiveFile,
) -> Map<Seq<char>, (Seq<char>, u64)> {
    if m.dom().contains(file.archive_name@) {
        m
    } else {
        m.insert(file.archive_name@, file.entry())
    }
}

/// A character's clips, in listing order, the first of a name kept.
pub open spec fn tts_files_of(clips: Seq<TtsClip>, id: Seq<char>) -> Map<Seq<char>, (Seq<char>, u64)>
    decreases clips.len(),
{
    if clips.len() == 0 {
        Map::empty()
    } else {
        let rest = tts_files_of(clips.drop_last(), id);
        if str_set(clips.last().owners@).contains(id) {
            or_insert(rest, clips.last().file)
        } else {
            rest
        }
    }
}

/// The clips no known character owns.
pub open spec fn unassigned_tts(clips: Seq<TtsClip>) -> Map<Seq<char>, (Seq<char>, u64)>
    decreases clips.len(),
{
    if clips.len() == 0 {
        Map::empty()
    } else {
        let rest = unassigned_tts(clips.drop_last());
        if clips.last().owners@.len() == 0 {
            or_insert(rest, clips.last().file)
        } else {
            rest
        }
    }
}

pub fn tts_files_for_character(clips: &Vec<TtsClip>, character_id: &str) -> (r: FileSet)
    ensures
        r@ == tts_files_of(clips@, character_id@),
{
    let mut out = FileSet::new();
    let mut i: usize = 0;
    while i < clips.len()
        invariant
            i <= clips.len(),
            out@ == tts_files_of(clips@.take(i as int), character_id@),
        decreases clips.len() - i,
    {
        assert(clips@.take(i + 1).drop_last() =~= clips@.take(i as int));
        if contains_string(&clips[i].owners, character_id) {
            out.add_if_absent(clips[i].file.duplicate());
        }
        i += 1;
    }
    assert(clips@.take(clips.len() as int) =~= clips@);
    out
}

pub fn unassigned_tts_files(clips: &Vec<TtsClip>) -> (r: FileSet)
    ensures
        r@ == unassigned_tts(clips@),
{
    let mut out = FileSet::new();
    let mut i: usize = 0;
    while i < clips.len()
        invariant
            i <= clips.len(),
            out@ == unassigned_tts(clips@.take(i as int)),
        decreases clips.len() - i,
    {
        assert(clips@.take(i + 1).drop_last() =~= clips@.take(i as int));
        if clips[i].owners.len() == 0 {
            out.add_if_absent(clips[i].file.duplicate());
        }
        i += 1;
    }
    assert(clips@.take(clips.len() as int) =~= clips@);
    out
}

// ---------------------------------------------------------------------------
// Sizes
// ---------------------------------------------------------------------------

/// The stored size of a character's conversation: message and variant byte counts (negative
/// or missing counts read as 0) plus 8 KiB, saturating.
pub fn character_core_bytes(message_bytes: i64, variant_bytes: i64) -> (r: u64)
    ensures
        r == capped(
            (if message_bytes < 0 { 0 } else { message_bytes as int }) + (if variant_bytes < 0 {
                0
            } else {
                variant_bytes as int
            }) + 8192,
        ),
{
    let messages: u64 = if message_bytes < 0 { 0 } else { message_bytes as u64 };
    let variants: u64 = if variant_bytes < 0 { 0 } else { variant_bytes as u64 };
    messages.saturating_add(variants).saturating_add(8192)
}

/// The database's size: page count times page size (negatives read as 0), saturating.
pub fn database_size(page_count: i64, page_size: i64) -> (r: u64)
    ensures
        r == capped(
            (if page_count < 0 { 0 } else { page_count as int }) * (if page_size < 0 {
                0
            } else {
                page_size as int
            }),
        ),
{
    let count: u64 = if page_count < 0 { 0 } else { page_count as u64 };
    let size: u64 = if page_size < 0 { 0 } else { page_size as u64 };
    proof {
        assert(count * size >= 0) by (nonlinear_arith)
            requires
                count >= 0,
                size >= 0,
        ;
    }
    match count.checked_mul(size) {
        Some(product) => product,
        None => u64::MAX,
    }
}

// ---------------------------------------------------------------------------
// Group chats
// ---------------------------------------------------------------------------

/// The selection entry for a character: the last one naming it (as a map collected from the
/// list keeps it).
pub open spec fn selection_for(chosen: Seq<BackupCharacterSelection>, id: Seq<char>) -> Option<int>
    decreases chosen.len(),
{
    if chosen.len() == 0 {
        None
    } else if chosen.last().character_id@ == id {
        Some(chosen.len() - 1)
    } else {
        selection_for(chosen.drop_last(), id)
    }
}

proof fn lemma_selection_for(chosen: Seq<BackupCharacterSelection>, id: Seq<char>)
    ensures
        selection_for(chosen, id) matches Some(k) ==> 0 <= k < chosen.len()
            && chosen[k].character_id@ == id,
    decreases chosen.len(),
{
    if chosen.len() > 0 && chosen.last().character_id@ != id {
        lemma_selection_for(chosen.drop_last(), id);
    }
}

fn find_selection(chosen: &Vec<BackupCharacterSelection>, id: &str) -> (r: Option<usize>)
    ensures
        match r {
            Some(k) => selection_for(chosen@, id@) == Some(k as int),
            None => selection_for(chosen@, id@) is None,
        },
{
    let mut end: usize = chosen.len();
    assert(chosen@.take(end as int) =~= chosen@);
    while end > 0
        invariant
            end <= chosen.len(),
            selection_for(chosen@, id@) == selection_for(chosen@.take(end as int), id@),
        decreases end,
    {
        if str_eq(chosen[end - 1].character_id.as_str(), id) {
            return Some(end - 1);
        }
        assert(chosen@.take(end as int).drop_last() =~= chosen@.take(end - 1));
        end -= 1;
    }
    None
}

/// Whether the selection entry for a character asks for its images.
pub open spec fn wants_images(chosen: Seq<BackupCharacterSelection>, id: Seq<char>) -> bool {
    match selection_for(chosen, id) {
        Some(k) => chosen[k].include_images,
        None => false,
    }
}

/// Whether the selection entry for a character asks for its audio.
pub open spec fn wants_audio(chosen: Seq<BackupCharacterSelection>, id: Seq<char>) -> bool {
    match selection_for(chosen, id) {
        Some(k) => chosen[k].include_audio,
        None => false,
    }
}

/// Whether some character of a group wants its images (`.0`) or its audio (`.1`) backed up.
pub open spec fn group_media_wanted(chosen: Seq<BackupCharacterSelection>, raw_ids: Seq<char>) -> (
    bool,
    bool,
) {
    (
        exists|id: Seq<char>| #[trigger] character_id_set(raw_ids).contains(id) && wants_images(chosen, id),
        exists|id: Seq<char>| #[trigger] character_id_set(raw_ids).contains(id) && wants_audio(chosen, id),
    )
}

/// Whether a group chat's stored file is archived, given whether its images and its audio
/// are wanted.
pub fn media_wanted(kind: MediaKind, include_images: bool, include_audio: bool) -> (r: bool)
    ensures
        r == match kind {
            MediaKind::Image => include_images,
            MediaKind::Audio => include_audio,
        },
{
    match kind {
        MediaKind::Image => include_images,
        MediaKind::Audio => include_audio,
    }
}

pub fn group_media_flags(selection: &BackupSelection, raw_character_ids: &str) -> (r: (bool, bool))
    ensures
        r == group_media_wanted(selection.characters@, raw_character_ids@),
{
    let ids = parse_character_ids(raw_character_ids);
    let mut images = false;
    let mut audio = false;
    let ghost chosen = selection.characters@;
    let mut i: usize = 0;
    while i < ids.len()
        invariant
            i <= ids.len(),
            chosen == selection.characters@,
            str_set(ids@) == character_id_set(raw_character_ids@),
            images == exists|j: int| 0 <= j < i && #[trigger] wants_images(chosen, ids@[j]@),
            audio == exists|j: int| 0 <= j < i && #[trigger] wants_audio(chosen, ids@[j]@),
        decreases ids.len() - i,
    {
        proof {
            lemma_selection_for(chosen, ids@[i as int]@);
        }
        let ghost was_images = images;
        let ghost was_audio = audio;
        match find_selection(&selection.characters, ids[i].as_str()) {
            Some(k) => {
                if selection.characters[k].include_images {
                    images = true;
                }
                if selection.characters[k].include_audio {
                    audio = true;
                }
            },
            None => {},
        }
        assert(images == (was_images || wants_images(chosen, ids@[i as int]@)));
        assert(audio == (was_audio || wants_audio(chosen, ids@[i as int]@)));
        proof {
            if images && !was_images {
                assert(wants_images(chosen, ids@[i as int]@));
            }
            if audio && !was_audio {
                assert(wants_audio(chosen, ids@[i as int]@));
            }
        }
        i += 1;
    }
    proof {
        let (wi, wa) = group_media_wanted(chosen, raw_character_ids@);
        assert(images == wi) by {
            if images {
                let j = choose|j: int| 0 <= j < ids@.len() && #[trigger] wants_images(chosen, ids@[j]@);
                assert(str_set(ids@).contains(ids@[j]@));
            }
            if wi {
                let id = choose|id: Seq<char>|
                    #[trigger] character_id_set(raw_character_ids@).contains(id) && wants_images(
                        chosen,
                        id,
                    );
                let j = choose|j: int| 0 <= j < ids@.len() && (#[trigger] ids@[j])@ == id;
                assert(wants_images(chosen, ids@[j]@));
            }
        }
        assert(audio == wa) by {
            if audio {
                let j = choose|j: int| 0 <= j < ids@.len() && #[trigger] wants_audio(chosen, ids@[j]@);
                assert(str_set(ids@).contains(ids@[j]@));
            }
            if wa {
                let id = choose|id: Seq<char>|
                    #[trigger] character_id_set(raw_character_ids@).contains(id) && wants_audio(
                        chosen,
                        id,
                    );
                let j = choose|j: int| 0 <= j < ids@.len() && (#[trigger] ids@[j])@ == id;
                assert(wants_audio(chosen, ids@[j]@));
            }
        }
    }
    (images, audio)
}

// ---------------------------------------------------------------------------
// The plan
// ---------------------------------------------------------------------------

/// What one character weighs in a backup.
#[derive(Debug, Clone)]
pub struct BackupCharacterEstimate {
    pub character_id: String,
    pub name: String,
    pub avatar_path: Option<String>,
    pub core_bytes: u64,
    pub audio_bytes: u64,
    pub image_bytes: u64,
    pub total_bytes: u64,
}

/// What a backup will weigh.
#[derive(Debug, Clone)]
pub struct BackupEstimate {
    pub characters: Vec<BackupCharacterEstimate>,
    pub data_bytes: u64,
    pub resource_bytes: u64,
    pub unassigned_audio_bytes: u64,
    pub total_bytes: u64,
    pub total_files: u64,
}

/// A stored character with its conversation size and the media found for it.
pub struct CharacterInventory {
    pub id: String,
    pub name: String,
    pub avatar_path: Option<String>,
    pub core_bytes: u64,
    pub images: FileSet,
    pub audio: FileSet,
}

/// A planned backup: the selection, its scope, the files in archive-name order, and the
/// estimate.
pub struct BackupPlan {
    pub selection: BackupSelection,
    pub scope: BackupScope,
    pub files: Vec<BackupArchiveFile>,
    pub estimate: BackupEstimate,
}

/// The first stored character with an id.
pub open spec fn inventory_index(chars: Seq<CharacterInventory>, id: Seq<char>) -> Option<int>
    decreases chars.len(),
{
    if chars.len() == 0 {
        None
    } else {
        match inventory_index(chars.drop_last(), id) {
            Some(k) => Some(k),
            None => if chars.last().id@ == id {
                Some(chars.len() - 1)
            } else {
                None
            },
        }
    }
}

proof fn lemma_inventory_index(chars: Seq<CharacterInventory>, id: Seq<char>)
    ensures
        inventory_index(chars, id) matches Some(k) ==> 0 <= k < chars.len() && chars[k].id@ == id,
        inventory_index(chars, id) is None ==> forall|j: int|
            0 <= j < chars.len() ==> (#[trigger] chars[j]).id@ != id,
        inventory_index(chars, id) matches Some(k) ==> forall|j: int|
            0 <= j < k ==> (#[trigger] chars[j]).id@ != id,
    decreases chars.len(),
{
    if chars.len() > 0 {
        let rest = chars.drop_last();
        lemma_inventory_index(rest, id);
        assert forall|j: int| 0 <= j < rest.len() implies rest[j] == chars[j] by {}
    }
}

/// The media of the selected characters, each adding what its selection entry asks for
/// (files of the same name replaced).
pub open spec fn custom_media(
    ids: Seq<String>,
    chars: Seq<CharacterInventory>,
    chosen: Seq<BackupCharacterSelection>,
) -> Map<Seq<char>, (Seq<char>, u64)>
    decreases ids.len(),
{
    if ids.len() == 0 {
        Map::empty()
    } else {
        let rest = custom_media(ids.drop_last(), chars, chosen);
        let id = ids.last()@;
        match (inventory_index(chars, id), selection_for(chosen, id)) {
            (Some(k), Some(s)) => {
                let with_images = if chosen[s].include_images {
                    rest.union_prefer_right(chars[k].images@)
                } else {
                    rest
                };
                if chosen[s].include_audio {
                    with_images.union_prefer_right(chars[k].audio@)
                } else {
                    with_images
                }
            },
            _ => rest,
        }
    }
}

/// The files a backup archives: every resource file in a full backup; otherwise the selected
/// characters' media, then unassigned audio when asked for, then the covered group chats'
/// media.
pub open spec fn planned_files(
    selection: BackupSelection,
    scope: BackupScope,
    chars: Seq<CharacterInventory>,
    full: Map<Seq<char>, (Seq<char>, u64)>,
    unassigned: Map<Seq<char>, (Seq<char>, u64)>,
    group: Map<Seq<char>, (Seq<char>, u64)>,
) -> Map<Seq<char>, (Seq<char>, u64)> {
    if selection.mode == BackupSelectionMode::Full {
        full
    } else {
        let own = custom_media(scope.selected_character_ids@, chars, selection.characters@);
        let with_unassigned = if selection.include_unassigned_audio {
            own.union_prefer_right(unassigned)
        } else {
            own
        };
        with_unassigned.union_prefer_right(group)
    }
}

proof fn lemma_custom_media_grows(
    ids: Seq<String>,
    chars: Seq<CharacterInventory>,
    chosen: Seq<BackupCharacterSelection>,
)
    ensures
        ids.len() > 0 ==> custom_media(ids.drop_last(), chars, chosen).dom().subset_of(
            custom_media(ids, chars, chosen).dom(),
        ),
{
}

proof fn lemma_custom_media_keeps(
    ids: Seq<String>,
    chars: Seq<CharacterInventory>,
    chosen: Seq<BackupCharacterSelection>,
    i: int,
    k: int,
    s: int,
)
    requires
        0 <= i < ids.len(),
        inventory_index(chars, ids[i]@) == Some(k),
        selection_for(chosen, ids[i]@) == Some(s),
    ensures
        chosen[s].include_images ==> chars[k].images@.dom().subset_of(
            custom_media(ids, chars, chosen).dom(),
        ),
        chosen[s].include_audio ==> chars[k].audio@.dom().subset_of(
            custom_media(ids, chars, chosen).dom(),
        ),
    decreases ids.len(),
{
    if i < ids.len() - 1 {
        let rest = ids.drop_last();
        assert(rest[i] == ids[i]);
        lemma_custom_media_keeps(rest, chars, chosen, i, k, s);
        lemma_custom_media_grows(ids, chars, chosen);
    }
}

/// A custom backup archives, under their names, all the images (and all the audio) of every
/// selected, stored character whose selection entry asks for them.
pub proof fn law_selected_media_archived(
    selection: BackupSelection,
    scope: BackupScope,
    chars: Seq<CharacterInventory>,
    full: Map<Seq<char>, (Seq<char>, u64)>,
    unassigned: Map<Seq<char>, (Seq<char>, u64)>,
    group: Map<Seq<char>, (Seq<char>, u64)>,
    k: int,
)
    requires
        selection.mode == BackupSelectionMode::Custom,
        0 <= k < chars.len(),
        str_set(scope.selected_character_ids@).contains(chars[k].id@),
        inventory_index(chars, chars[k].id@) == Some(k),
    ensures
        wants_images(selection.characters@, chars[k].id@) ==> chars[k].images@.dom().subset_of(
            planned_files(selection, scope, chars, full, unassigned, group).dom(),
        ),
        wants_audio(selection.characters@, chars[k].id@) ==> chars[k].audio@.dom().subset_of(
            planned_files(selection, scope, chars, full, unassigned, group).dom(),
        ),
{
    let ids = scope.selected_character_ids@;
    let id = chars[k].id@;
    let i = choose|i: int| 0 <= i < ids.len() && (#[trigger] ids[i])@ == id;
    match selection_for(selection.characters@, id) {
        Some(s) => {
            lemma_custom_media_keeps(ids, chars, selection.characters@, i, k, s);
        },
        None => {},
    }
}

/// The conversation sizes of the selected characters.
pub open spec fn selected_core_sum(ids: Seq<String>, chars: Seq<CharacterInventory>) -> int
    decreases ids.len(),
{
    if ids.len() == 0 {
        0
    } else {
        selected_core_sum(ids.drop_last(), chars) + match inventory_index(chars, ids.last()@) {
            Some(k) => chars[k].core_bytes as int,
            None => 0,
        }
    }
}

/// The data part of a backup: the whole database in a full backup; otherwise the selected
/// characters' conversations plus 256 KiB.
pub open spec fn planned_data_bytes(
    selection: BackupSelection,
    scope: BackupScope,
    chars: Seq<CharacterInventory>,
    database_bytes: u64,
) -> u64 {
    if selection.mode == BackupSelectionMode::Full {
        database_bytes
    } else {
        capped(selected_core_sum(scope.selected_character_ids@, chars) + 262144)
    }
}

/// A character's estimate: its conversation, audio and image sizes and their total.
pub open spec fn character_estimate_matches(e: BackupCharacterEstimate, c: CharacterInventory) -> bool {
    &&& e.character_id@ == c.id@
    &&& e.name@ == c.name@
    &&& opt_str(e.avatar_path) == opt_str(c.avatar_path)
    &&& e.core_bytes == c.core_bytes
    &&& e.audio_bytes == capped(size_sum(c.audio.items()))
    &&& e.image_bytes == capped(size_sum(c.images.items()))
    &&& e.total_bytes == capped(
        c.core_bytes + size_sum(c.audio.items()) + size_sum(c.images.items()),
    )
}

pub open spec fn opt_str(s: Option<String>) -> Option<Seq<char>> {
    match s {
        Some(s) => Some(s@),
        None => None,
    }
}

fn find_inventory(chars: &Vec<CharacterInventory>, id: &str) -> (r: Option<usize>)
    ensures
        match r {
            Some(k) => inventory_index(chars@, id@) == Some(k as int) && k < chars.len(),
            None => inventory_index(chars@, id@) is None,
        },
{
    let mut k: usize = 0;
    while k < chars.len()
        invariant
            k <= chars.len(),
            forall|j: int| 0 <= j < k ==> (#[trigger] chars@[j]).id@ != id@,
        decreases chars.len() - k,
    {
        if str_eq(chars[k].id.as_str(), id) {
            proof {
                lemma_inventory_index(chars@, id@);
            }
            return Some(k);
        }
        k += 1;
    }
    proof {
        lemma_inventory_index(chars@, id@);
    }
    None
}

fn character_estimate(c: &CharacterInventory) -> (r: BackupCharacterEstimate)
    ensures
        character_estimate_matches(r, *c),
{
    let audio_bytes = c.audio.total_bytes();
    let image_bytes = c.images.total_bytes();
    proof {
        lemma_size_sum_nonneg(c.audio.items());
        lemma_size_sum_nonneg(c.images.items());
    }
    let avatar_path = match &c.avatar_path {
        Some(p) => Some(p.clone()),
        None => None,
    };
    BackupCharacterEstimate {
        character_id: c.id.clone(),
        name: c.name.clone(),
        avatar_path,
        core_bytes: c.core_bytes,
        audio_bytes,
        image_bytes,
        total_bytes: c.core_bytes.saturating_add(audio_bytes).saturating_add(image_bytes),
    }
}

fn custom_data_bytes(ids: &Vec<String>, characters: &Vec<CharacterInventory>) -> (r: u64)
    ensures
        r == capped(selected_core_sum(ids@, characters@) + 262144),
{
    let mut sum: u64 = 0;
    let mut i: usize = 0;
    while i < ids.len()
        invariant
            i <= ids.len(),
            sum == capped(selected_core_sum(ids@.take(i as int), characters@)),
            selected_core_sum(ids@.take(i as int), characters@) >= 0,
        decreases ids.len() - i,
    {
        assert(ids@.take(i + 1).drop_last() =~= ids@.take(i as int));
        let core: u64 = match find_inventory(characters, ids[i].as_str()) {
            Some(k) => characters[k].core_bytes,
            None => 0,
        };
        sum = sum.saturating_add(core);
        i += 1;
    }
    assert(ids@.take(ids.len() as int) =~= ids@);
    sum.saturating_add(262144)
}

fn custom_media_files(
    ids: &Vec<String>,
    characters: &Vec<CharacterInventory>,
    chosen: &Vec<BackupCharacterSelection>,
) -> (r: FileSet)
    ensures
        r@ == custom_media(ids@, characters@, chosen@),
{
    let mut selected = FileSet::new();
    let mut i: usize = 0;
    while i < ids.len()
        invariant
            i <= ids.len(),
            selected@ == custom_media(ids@.take(i as int), characters@, chosen@),
        decreases ids.len() - i,
    {
        assert(ids@.take(i + 1).drop_last() =~= ids@.take(i as int));
        let id = ids[i].as_str();
        match find_inventory(characters, id) {
            Some(k) => match find_selection(chosen, id) {
                Some(s) => {
                    proof {
                        lemma_selection_for(chosen@, id@);
                    }
                    if chosen[s].include_images {
                        selected.extend(&characters[k].images);
                    }
                    if chosen[s].include_audio {
                        selected.extend(&characters[k].audio);
                    }
                },
                None => {},
            },
            None => {},
        }
        i += 1;
    }
    assert(ids@.take(ids.len() as int) =~= ids@);
    selected
}

fn character_estimates(characters: &Vec<CharacterInventory>) -> (r: Vec<BackupCharacterEstimate>)
    ensures
        r@.len() == characters@.len(),
        forall|k: int|
            0 <= k < characters@.len() ==> character_estimate_matches(
                #[trigger] r@[k],
                characters@[k],
            ),
{
    let mut estimates: Vec<BackupCharacterEstimate> = Vec::new();
    let mut k: usize = 0;
    while k < characters.len()
        invariant
            k <= characters.len(),
            estimates@.len() == k,
            forall|j: int|
                0 <= j < k ==> character_estimate_matches(#[trigger] estimates@[j], characters@[j]),
        decreases characters.len() - k,
    {
        estimates.push(character_estimate(&characters[k]));
        k += 1;
    }
    estimates
}

/// Assembles a backup plan from the resolved scope, the stored characters with their media,
/// the database size, every resource file (for a full backup), the unassigned audio clips and
/// the covered group chats' media.
pub fn assemble_backup_plan(
    selection: BackupSelection,
    scope: BackupScope,
    characters: Vec<CharacterInventory>,
    database_bytes: u64,
    full_files: FileSet,
    unassigned_audio: FileSet,
    group_files: FileSet,
) -> (r: BackupPlan)
    ensures
        r.selection == selection,
        r.scope == scope,
        unique_names(r.files@),
        sorted_by_name(r.files@),
        file_map(r.files@) == planned_files(
            selection,
            scope,
            characters@,
            full_files@,
            unassigned_audio@,
            group_files@,
        ),
        r.estimate.data_bytes == planned_data_bytes(selection, scope, characters@, database_bytes),
        r.estimate.resource_bytes == capped(size_sum(r.files@)),
        r.estimate.unassigned_audio_bytes == capped(size_sum(unassigned_audio.items())),
        r.estimate.total_bytes == capped(r.estimate.data_bytes + r.estimate.resource_bytes),
        r.estimate.total_files == r.files@.len(),
        r.estimate.characters@.len() == characters@.len(),
        forall|k: int|
            0 <= k < characters@.len() ==> character_estimate_matches(
                #[trigger] r.estimate.characters@[k],
                characters@[k],
            ),
{
    let full = selection.mode == BackupSelectionMode::Full;
    let data_bytes: u64 = if full {
        database_bytes
    } else {
        custom_data_bytes(&scope.selected_character_ids, &characters)
    };
    let files: FileSet = if full {
        full_files
    } else {
        let mut selected = custom_media_files(
            &scope.selected_character_ids,
            &characters,
            &selection.characters,
        );
        if selection.include_unassigned_audio {
            selected.extend(&unassigned_audio);
        }
        selected.extend(&group_files);
        selected
    };
    let estimates = character_estimates(&characters);
    let unassigned_audio_bytes = unassigned_audio.total_bytes();
    let sorted = files.into_sorted();
    let resource_bytes = sum_sizes(&sorted);
    let total_files = sorted.len() as u64;
    BackupPlan {
        selection,
        scope,
        files: sorted,
        estimate: BackupEstimate {
            characters: estimates,
            data_bytes,
            resource_bytes,
            unassigned_audio_bytes,
            total_bytes: data_bytes.saturating_add(resource_bytes),
            total_files,
        },
    }
}

/// The plain sum of a list of byte counts.
pub open spec fn size_list_sum(sizes: Seq<u64>) -> int
    decreases sizes.len(),
{
    if sizes.len() == 0 {
        0
    } else {
        size_list_sum(sizes.drop_last()) + sizes.last()
    }
}

proof fn lemma_size_list_sum_nonneg(sizes: Seq<u64>)
    ensures
        size_list_sum(sizes) >= 0,
    decreases sizes.len(),
{
    if sizes.len() > 0 {
        lemma_size_list_sum_nonneg(sizes.drop_last());
    }
}

/// Byte counts summed, saturating at `u64::MAX`.
pub fn sum_u64s(sizes: &Vec<u64>) -> (r: u64)
    ensures
        r == capped(size_list_sum(sizes@)),
{
    let mut total: u64 = 0;
    let mut i: usize = 0;
    while i < sizes.len()
        invariant
            i <= sizes.len(),
            total == capped(size_list_sum(sizes@.take(i as int))),
        decreases sizes.len() - i,
    {
        proof {
            assert(sizes@.take(i + 1).drop_last() =~= sizes@.take(i as int));
            lemma_size_list_sum_nonneg(sizes@.take(i as int));
        }
        total = total.saturating_add(sizes[i]);
        i += 1;
    }
    assert(sizes@.take(sizes.len() as int) =~= sizes@);
    total
}

} // verus!
