//! Device settings: which file holds which setting, and what the settings
//! server answers to each request.
//!
//! Each setting lives in a file of its own. The functions here decide; the
//! caller reads and writes the files and talks to the watchers.

use vstd::prelude::*;
use vstd::string::StringExecFns;

verus! {

/// The status of a request for a setting.
#[derive(Debug, Clone, Copy, PartialEq, Eq, Structural)]
pub enum Status {
    /// The request succeeded.
    Okay,
    ErrNotSet,
    ErrInvalidSetting,
    ErrRead,
    ErrIncorrectType,
    ErrUnknown,
}

/// The type of the value of a setting.
#[derive(Debug, Clone, Copy, PartialEq, Eq, Structural)]
pub enum ValueType {
    Number,
    Text,
}

/// How an attempt to read the file of a setting ended.
#[derive(Debug, Clone, PartialEq, Eq)]
pub enum ReadOutcome {
    /// The file was read, and held this text.
    Contents(String),
    /// There is no such file.
    NotFound,
    /// The file could not be read.
    Failed,
}

/// How an attempt to notify a watcher ended.
#[derive(Debug, Clone, Copy, PartialEq, Eq, Structural)]
pub enum NotifyOutcome {
    Delivered,
    /// The watcher has closed its end of the channel.
    PeerClosed,
    /// The notification failed for another reason.
    Failed,
}

/// The lower-case form of a text, as `str::to_lowercase` gives it.
pub uninterp spec fn lowercase(text: Seq<char>) -> Seq<char>;

/// The number that a text spells in decimal notation, as `str::parse` reads
/// it into an `i64`, if it spells one.
pub uninterp spec fn parsed_integer(text: Seq<char>) -> Option<i64>;

/// The lower-case form of a text, by `str::to_lowercase`.
#[verifier::external_body]
fn to_lowercase(text: &str) -> (lower: String)
    ensures
        lower@ == lowercase(text@),
{
    text.to_lowercase()
}

/// The `i64` that a text spells, by `str::parse`, if it spells one.
#[verifier::external_body]
fn parse_integer(text: &str) -> (n: Option<i64>)
    ensures
        n == parsed_integer(text@),
{
    text.parse::<i64>().ok()
}

/// The path of the file that holds the setting `key`: the lower-case form of
/// the key, within the data directory.
pub open spec fn spec_setting_file(data_dir: Seq<char>, key: Seq<char>) -> Seq<char> {
    data_dir + "/"@ + lowercase(key)
}

/// The path of the file `name` within the directory `data_dir`.
pub fn file_in(data_dir: &str, name: &str) -> (path: String)
    ensures
        path@ == data_dir@ + "/"@ + name@,
{
    String::from_str(data_dir).concat("/").concat(name)
}

/// The path of the file that holds the setting `key`.
pub fn setting_file(data_dir: &str, key: &str) -> (path: String)
    ensures
        path@ == spec_setting_file(data_dir@, key@),
{
    let lower = to_lowercase(key);
    file_in(data_dir, lower.as_str())
}

/// A setting and the file that holds it.
#[derive(Debug, Clone, PartialEq, Eq)]
pub struct SettingFile {
    pub key: String,
    pub file: String,
}

/// The settings that the server knows, each with its file.
#[derive(Debug, Clone, PartialEq, Eq)]
pub struct SettingFiles {
    pub entries: Vec<SettingFile>,
}

/// The map from keys to files that a list of entries stands for. Of two
/// entries for one key the later counts.
pub open spec fn files_of(entries: Seq<SettingFile>) -> Map<Seq<char>, Seq<char>>
    decreases entries.len(),
{
    if entries.len() == 0 {
        Map::empty()
    } else {
        files_of(entries.drop_last()).insert(entries.last().key@, entries.last().file@)
    }
}

impl View for SettingFiles {
    type V = Map<Seq<char>, Seq<char>>;

    open spec fn view(&self) -> Map<Seq<char>, Seq<char>> {
        files_of(self.entries@)
    }
}

/// The map of the settings `keys`, each to its file within `data_dir`.
pub open spec fn spec_initialize(data_dir: Seq<char>, keys: Seq<Seq<char>>) -> Map<Seq<char>, Seq<char>>
    decreases keys.len(),
{
    if keys.len() == 0 {
        Map::empty()
    } else {
        spec_initialize(data_dir, keys.drop_last()).insert(
            keys.last(),
            spec_setting_file(data_dir, keys.last()),
        )
    }
}

/// The model of a list of keys.
pub open spec fn keys_view(keys: Seq<String>) -> Seq<Seq<char>> {
    Seq::new(keys.len(), |i: int| keys[i]@)
}

impl SettingFiles {
    /// No settings.
    pub fn new() -> (s: SettingFiles)
        ensures
            s@ == Map::<Seq<char>, Seq<char>>::empty(),
    {
        SettingFiles { entries: Vec::new() }
    }

    /// Forgets the settings known so far, and knows the settings `keys`
    /// instead, each with its file within `data_dir`.
    pub fn initialize_keys(&mut self, data_dir: &str, keys: &Vec<String>)
        ensures
            final(self)@ == spec_initialize(data_dir@, keys_view(keys@)),
    {
        let mut entries: Vec<SettingFile> = Vec::new();
        let mut i: usize = 0;
        while i < keys.len()
            invariant
                i <= keys@.len(),
                files_of(entries@) == spec_initialize(data_dir@, keys_view(keys@).subrange(0, i as int)),
            decreases keys@.len() - i,
        {
            let key = keys[i].clone();
            let file = setting_file(data_dir, keys[i].as_str());
            let ghost before = entries@;
            entries.push(SettingFile { key, file });
            proof {
                assert(entries@.drop_last() =~= before);
                let now = keys_view(keys@).subrange(0, i + 1);
                assert(now.drop_last() =~= keys_view(keys@).subrange(0, i as int));
                assert(now.last() == keys@[i as int]@);
            }
            i += 1;
        }
        assert(keys_view(keys@).subrange(0, i as int) =~= keys_view(keys@));
        self.entries = entries;
    }

    /// The file that holds the setting `key`, if the setting is known.
    pub fn file_of(&self, key: &str) -> (file: Option<&String>)
        ensures
            file is Some <==> self@.dom().contains(key@),
            file is Some ==> file->0@ == self@[key@],
    {
        let wanted = String::from_str(key);
        let mut i: usize = self.entries.len();
        proof {
            assert(self.entries@.subrange(0, i as int) =~= self.entries@);
        }
        while i > 0
            invariant
                i <= self.entries@.len(),
                wanted@ == key@,
                self@.dom().contains(key@) <==> files_of(self.entries@.subrange(0, i as int)).dom().contains(
                    key@,
                ),
                self@.dom().contains(key@) ==> self@[key@] == files_of(
                    self.entries@.subrange(0, i as int),
                )[key@],
            decreases i,
        {
            let ghost upto = self.entries@.subrange(0, i as int);
            proof {
                assert(upto.drop_last() =~= self.entries@.subrange(0, i - 1));
                assert(upto.last() == self.entries@[i - 1]);
            }
            i -= 1;
            if self.entries[i].key == wanted {
                return Some(&self.entries[i].file);
            }
        }
        None
    }

    /// Whether the setting `key` is known.
    pub fn knows(&self, key: &str) -> (b: bool)
        ensures
            b == self@.dom().contains(key@),
    {
        self.file_of(key).is_some()
    }
}

/// The answer to a request for the number of a setting, given the outcome of
/// reading its file; `None` stands for a setting that is not known.
pub open spec fn spec_integer_reply(read: Option<ReadOutcome>) -> (i64, Status) {
    match read {
        None => (0, Status::ErrInvalidSetting),
        Some(ReadOutcome::NotFound) => (0, Status::ErrNotSet),
        Some(ReadOutcome::Failed) => (0, Status::ErrRead),
        Some(ReadOutcome::Contents(text)) => match parsed_integer(text@) {
            None => (0, Status::ErrIncorrectType),
            Some(n) => (n, Status::Okay),
        },
    }
}

/// The answer to a request for the number of a setting.
pub fn integer_reply(read: Option<ReadOutcome>) -> (reply: (i64, Status))
    ensures
        reply == spec_integer_reply(read),
{
    match read {
        None => (0, Status::ErrInvalidSetting),
        Some(ReadOutcome::NotFound) => (0, Status::ErrNotSet),
        Some(ReadOutcome::Failed) => (0, Status::ErrRead),
        Some(ReadOutcome::Contents(text)) => integer_in(text.as_str()),
    }
}

/// The answer to a request for the number of a setting whose file holds
/// `text`: the number that the text spells, or a complaint that it spells
/// none.
pub fn integer_in(text: &str) -> (reply: (i64, Status))
    ensures
        reply == (match parsed_integer(text@) {
            None => (0i64, Status::ErrIncorrectType),
            Some(n) => (n, Status::Okay),
        }),
{
    number_reply(parse_integer(text))
}

/// The answer to a request for the number of a setting, given what the text
/// of its file spells.
pub fn number_reply(parsed: Option<i64>) -> (reply: (i64, Status))
    ensures
        reply == (match parsed {
            None => (0i64, Status::ErrIncorrectType),
            Some(n) => (n, Status::Okay),
        }),
{
    match parsed {
        None => (0, Status::ErrIncorrectType),
        Some(n) => (n, Status::Okay),
    }
}

/// The answer to a request for the text of a setting, given the outcome of
/// reading its file; `None` stands for a setting that is not known.
pub fn string_reply(read: Option<ReadOutcome>) -> (reply: (String, Status))
    ensures
        reply.1 == (match read {
            None => Status::ErrInvalidSetting,
            Some(ReadOutcome::NotFound) => Status::ErrNotSet,
            Some(ReadOutcome::Failed) => Status::ErrRead,
            Some(ReadOutcome::Contents(_)) => Status::Okay,
        }),
        reply.0@ == (match read {
            Some(ReadOutcome::Contents(text)) => text@,
            _ => Seq::<char>::empty(),
        }),
{
    match read {
        None => (String::new(), Status::ErrInvalidSetting),
        Some(ReadOutcome::NotFound) => (String::new(), Status::ErrNotSet),
        Some(ReadOutcome::Failed) => (String::new(), Status::ErrRead),
        Some(ReadOutcome::Contents(text)) => (text, Status::Okay),
    }
}

/// The answer to a request to set a setting: it is set when the setting is
/// known and its file was written. `written` is `None` for a setting that is
/// not known, and else tells whether the write succeeded.
pub fn set_reply(written: Option<bool>) -> (set: bool)
    ensures
        set == (written == Some(true)),
{
    match written {
        Some(done) => done,
        None => false,
    }
}

/// The answer to a request to watch a setting: the setting must be known,
/// and the channel of the watcher usable.
pub fn watch_reply(known: bool, watcher_usable: bool) -> (status: Status)
    ensures
        status == (if !known {
            Status::ErrInvalidSetting
        } else if !watcher_usable {
            Status::ErrUnknown
        } else {
            Status::Okay
        }),
{
    if !known {
        Status::ErrInvalidSetting
    } else if !watcher_usable {
        Status::ErrUnknown
    } else {
        Status::Okay
    }
}

/// Whether a watcher stays after an attempt to notify it: one that has closed
/// its end of the channel goes, every other stays.
pub fn keeps_watcher(outcome: NotifyOutcome) -> (keep: bool)
    ensures
        keep == (outcome != NotifyOutcome::PeerClosed),
{
    match outcome {
        NotifyOutcome::PeerClosed => false,
        _ => true,
    }
}

/// The watchers that stay after a round of notifications: those whose
/// notification did not find the channel closed, in their order. Returns
/// their positions among `outcomes`.
pub fn retained_watchers(outcomes: &Vec<NotifyOutcome>) -> (kept: Vec<usize>)
    ensures
        forall|i: int| 0 <= i < kept@.len() ==> 0 <= #[trigger] kept@[i] < outcomes@.len() && outcomes@[kept@[i] as int]
            != NotifyOutcome::PeerClosed,
        forall|i: int, j: int| 0 <= i < j < kept@.len() ==> kept@[i] < kept@[j],
        forall|k: int|
            0 <= k < outcomes@.len() && #[trigger] outcomes@[k] != NotifyOutcome::PeerClosed
                ==> kept@.contains(k as usize),
{
    let mut kept: Vec<usize> = Vec::new();
    let mut n: usize = 0;
    while n < outcomes.len()
        invariant
            n <= outcomes@.len(),
            forall|i: int| 0 <= i < kept@.len() ==> 0 <= #[trigger] kept@[i] < n && outcomes@[kept@[i] as int]
                != NotifyOutcome::PeerClosed,
            forall|i: int, j: int| 0 <= i < j < kept@.len() ==> kept@[i] < kept@[j],
            forall|k: int|
                0 <= k < n && #[trigger] outcomes@[k] != NotifyOutcome::PeerClosed ==> kept@.contains(
                    k as usize,
                ),
        decreases outcomes@.len() - n,
    {
        if keeps_watcher(outcomes[n]) {
            let ghost before = kept@;
            kept.push(n);
            proof {
                assert forall|k: int|
                    0 <= k < n + 1 && #[trigger] outcomes@[k] != NotifyOutcome::PeerClosed implies kept@.contains(
                    k as usize,
                ) by {
                    if k < n {
                        let w = choose|w: int| 0 <= w < before.len() && before[w] == k as usize;
                        assert(kept@[w] == k as usize);
                    } else {
                        assert(kept@[before.len() as int] == k as usize);
                    }
                }
            }
        }
        n += 1;
    }
    kept
}

} // verus!
