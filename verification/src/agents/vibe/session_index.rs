//! Reading Vibe's on-disk session store.
//!
//! Vibe keeps one directory per session under `logs/session` of its home: an
//! index cache `.session_index.json`, which maps directory names to records, and
//! in each directory a `meta.json`, which is the source of truth. The stream has
//! no title and no usage; both stand here. The format is private, so nothing
//! here fails: what cannot be read is not there.
use crate::json;
use crate::json::{parse_bytes, read_double, read_str, Json, JsonView};
use crate::model;
use crate::model::{reported_cost, AgentUsage, Moment};
use crate::paths;
use crate::paths::{join, same_path};
use crate::text;
use crate::text::{push_text, starts_with, str_eq, trim};
use vstd::prelude::*;

verus! {

/// The longest prefix of a file that is read, in bytes.
pub const MAX_BYTES: usize = 262144;

/// Sessions that began this many seconds before a launch are still candidates.
pub const RECENT_SLACK_SECONDS: i64 = 10;

/// Nanoseconds from here on stand for a leap second.
pub const NANOS_PER_SECOND: u32 = 1000000000;

/// The moment that an RFC 3339 text names: seconds since the epoch, and the
/// nanoseconds behind them; nothing where `chrono` refuses the text.
pub uninterp spec fn rfc3339_moment(text: Seq<char>) -> Option<(i64, u32)>;

/// `chrono::DateTime::parse_from_rfc3339`, as seconds since the epoch and
/// nanoseconds. The result is a function of the text.
#[verifier::external_body]
fn parse_rfc3339(text: &str) -> (moment: Option<(i64, u32)>)
    ensures
        moment == rfc3339_moment(text@),
{
    chrono::DateTime::parse_from_rfc3339(text).ok().map(
        |t| (t.timestamp(), t.timestamp_subsec_nanos()),
    )
}

/// Vibe's home: the configured one, or else the usual one in the user's.
pub open spec fn home_in(configured: Option<Seq<char>>, home: Option<Seq<char>>) -> Option<
    Seq<char>,
> {
    match (configured, home) {
        (Some(dir), _) => Some(dir),
        (None, Some(dir)) => Some(paths::joined(dir, ".vibe"@)),
        (None, None) => None,
    }
}

/// Vibe's home, where `configured` is what the environment says.
pub fn vibe_home(configured: Option<&str>, home: Option<&str>) -> (root: Option<String>)
    ensures
        model::opt_text(root) == home_in(json::opt_str(configured), json::opt_str(home)),
{
    match configured {
        Some(dir) => Some(dir.to_owned()),
        None => match home {
            Some(dir) => Some(join(dir, ".vibe")),
            None => None,
        },
    }
}

/// A session's id and title.
#[derive(Debug, PartialEq, Eq)]
pub struct SessionIdentity {
    pub id: String,
    pub title: Option<String>,
}

/// [`SessionIdentity`] over mathematical text.
pub struct IdentityView {
    pub id: Seq<char>,
    pub title: Option<Seq<char>>,
}

impl View for SessionIdentity {
    type V = IdentityView;

    open spec fn view(&self) -> IdentityView {
        IdentityView { id: self.id@, title: model::opt_text(self.title) }
    }
}

/// An optional identity by its view.
pub open spec fn opt_identity(identity: Option<SessionIdentity>) -> Option<IdentityView> {
    match identity {
        Some(identity) => Some(identity@),
        None => None,
    }
}

/// One record of the index.
#[derive(Debug, PartialEq, Eq)]
pub struct IndexEntry {
    /// The name of the session's directory.
    pub key: String,
    pub id: String,
    pub cwd: Option<String>,
    pub start_time: Option<Moment>,
    pub mtime_ns: u64,
    pub title: Option<String>,
}

/// [`IndexEntry`] over mathematical text.
pub struct EntryView {
    pub key: Seq<char>,
    pub id: Seq<char>,
    pub cwd: Option<Seq<char>>,
    pub start_time: Option<Moment>,
    pub mtime_ns: u64,
    pub title: Option<Seq<char>>,
}

impl View for IndexEntry {
    type V = EntryView;

    open spec fn view(&self) -> EntryView {
        EntryView {
            key: self.key@,
            id: self.id@,
            cwd: model::opt_text(self.cwd),
            start_time: self.start_time,
            mtime_ns: self.mtime_ns,
            title: model::opt_text(self.title),
        }
    }
}

/// Several records by their views.
pub open spec fn entry_views(entries: Seq<IndexEntry>) -> Seq<EntryView> {
    entries.map_values(|e: IndexEntry| e@)
}

/// The directory of the sessions inside a Vibe home.
pub open spec fn sessions_path(root: Seq<char>) -> Seq<char> {
    paths::joined(paths::joined(root, "logs"@), "session"@)
}

/// The directory of the sessions inside a Vibe home.
pub fn sessions_dir(root: &str) -> (path: String)
    ensures
        path@ == sessions_path(root@),
{
    join(join(root, "logs").as_str(), "session")
}

/// The index inside a Vibe home.
pub fn index_path(root: &str) -> (path: String)
    ensures
        path@ == paths::joined(sessions_path(root@), ".session_index.json"@),
{
    join(sessions_dir(root).as_str(), ".session_index.json")
}

/// The metadata file of the session directory `key` inside a Vibe home.
pub fn metadata_path(root: &str, key: &str) -> (path: String)
    ensures
        path@ == paths::joined(paths::joined(sessions_path(root@), key@), "meta.json"@),
{
    join(join(sessions_dir(root).as_str(), key).as_str(), "meta.json")
}

/// The JSON value in the readable prefix of a file.
pub open spec fn bounded_json(data: Seq<u8>) -> Option<JsonView> {
    let prefix = if data.len() > MAX_BYTES {
        data.take(MAX_BYTES as int)
    } else {
        data
    };
    match json::parsed_bytes(prefix) {
        Ok(value) => Some(value),
        Err(_) => None,
    }
}

/// The JSON value in an optional file.
pub open spec fn file_json(data: Option<Seq<u8>>) -> Option<JsonView> {
    match data {
        Some(data) => bounded_json(data),
        None => None,
    }
}

/// An optional file by its bytes.
pub open spec fn opt_bytes(data: Option<Vec<u8>>) -> Option<Seq<u8>> {
    match data {
        Some(data) => Some(data@),
        None => None,
    }
}

/// The JSON value in the readable prefix of an optional file.
pub fn read_json_bounded(data: &Option<Vec<u8>>) -> (value: Option<Json>)
    ensures
        json::opt_json(value) == file_json(opt_bytes(*data)),
{
    match data {
        Some(data) => {
            let parsed = if data.len() > MAX_BYTES {
                parse_bytes(vstd::slice::slice_subrange(data.as_slice(), 0, MAX_BYTES))
            } else {
                parse_bytes(data.as_slice())
            };
            assert(data@.len() > MAX_BYTES ==> data@.subrange(0, MAX_BYTES as int) == data@.take(
                MAX_BYTES as int,
            ));
            match parsed {
                Ok(value) => Some(value),
                Err(_) => None,
            }
        },
        None => None,
    }
}

/// A text field without white space around it; nothing where it is blank.
pub open spec fn field_text(value: JsonView, key: Seq<char>) -> Option<Seq<char>> {
    match json::str_of(value.get(key)) {
        Some(s) => if text::trimmed(s).len() > 0 {
            Some(text::trimmed(s))
        } else {
            None
        },
        None => None,
    }
}

/// A text field without white space around it; nothing where it is blank.
pub fn string_field(value: &Json, key: &str) -> (field: Option<String>)
    ensures
        model::opt_text(field) == field_text(value@, key@),
{
    match read_str(value.get(key)) {
        Some(s) => {
            let s = trim(s);
            if s.is_empty() {
                None
            } else {
                Some(s.to_owned())
            }
        },
        None => None,
    }
}

/// A field that names a moment.
pub open spec fn field_moment(value: JsonView, key: Seq<char>) -> Option<Moment> {
    match json::str_of(value.get(key)) {
        Some(s) => match rfc3339_moment(s) {
            Some((seconds, nanos)) => Some(Moment { seconds, nanos }),
            None => None,
        },
        None => None,
    }
}

/// A field that names a moment.
fn parse_time(value: &Json, key: &str) -> (moment: Option<Moment>)
    ensures
        moment == field_moment(value@, key@),
{
    match read_str(value.get(key)) {
        Some(s) => match parse_rfc3339(s) {
            Some((seconds, nanos)) => Some(Moment { seconds, nanos }),
            None => None,
        },
        None => None,
    }
}

/// The record that an index field describes; nothing where it has no id.
pub open spec fn entry_in(key: Seq<char>, value: JsonView) -> Option<EntryView> {
    match field_text(value, "session_id"@) {
        Some(id) => Some(
            EntryView {
                key,
                id,
                cwd: field_text(value, "cwd"@),
                start_time: field_moment(value, "start_time"@),
                mtime_ns: value.count("mtime_ns"@),
                title: field_text(value, "title"@),
            },
        ),
        None => None,
    }
}

/// The records that the index fields from position `from` on describe.
pub open spec fn entries_from(fields: Seq<(Seq<char>, JsonView)>, from: int) -> Seq<EntryView>
    decreases fields.len() - from,
{
    if from < 0 || from >= fields.len() {
        Seq::empty()
    } else {
        match entry_in(fields[from].0, fields[from].1) {
            Some(entry) => seq![entry] + entries_from(fields, from + 1),
            None => entries_from(fields, from + 1),
        }
    }
}

/// The records of an index, in its order; malformed ones are skipped.
pub open spec fn index_entries(value: Option<JsonView>) -> Seq<EntryView> {
    match value {
        Some(JsonView::Object(fields)) => entries_from(fields, 0),
        _ => Seq::empty(),
    }
}

/// The records of an index file, in its order; malformed ones are skipped.
pub fn parse_index(data: &Option<Vec<u8>>) -> (entries: Vec<IndexEntry>)
    ensures
        entry_views(entries@) == index_entries(file_json(opt_bytes(*data))),
{
    let value = read_json_bounded(data);
    let mut entries: Vec<IndexEntry> = Vec::new();
    assert(entry_views(entries@) == Seq::<EntryView>::empty());
    if let Some(Json::Object(fields)) = &value {
        let ghost all = json::field_views(fields@);
        assert(value->0@->Object_0 == all);
        let mut i: usize = 0;
        while i < fields.len()
            invariant
                i <= fields@.len(),
                all == json::field_views(fields@),
                entry_views(entries@) + entries_from(all, i as int) == entries_from(all, 0),
            decreases fields@.len() - i,
        {
            let ghost before = entry_views(entries@);
            let record = &fields[i].1;
            assert(all[i as int] == (fields@[i as int].0@, record@));
            if let Some(id) = string_field(record, "session_id") {
                let entry = IndexEntry {
                    key: fields[i].0.clone(),
                    id,
                    cwd: string_field(record, "cwd"),
                    start_time: parse_time(record, "start_time"),
                    mtime_ns: record.count("mtime_ns"),
                    title: string_field(record, "title"),
                };
                let ghost seen = entries@;
                entries.push(entry);
                assert(entry_views(entries@) == entry_views(seen).push(entry@));
                assert(before + entries_from(all, i as int) == entry_views(entries@)
                    + entries_from(all, i + 1));
            }
            i += 1;
        }
        assert(entry_views(entries@) + Seq::<EntryView>::empty() == entry_views(entries@));
    }
    entries
}

/// What was found on disk: the index file, the metadata file of each directory
/// that the index names, and the metadata file of each directory there is, in
/// the order in which they were listed.
#[derive(Debug)]
pub struct SessionStore {
    pub index: Option<Vec<u8>>,
    pub indexed: Vec<(String, Option<Vec<u8>>)>,
    pub listed: Vec<(String, Option<Vec<u8>>)>,
}

/// The position of the first directory from `from` on with this name, or the
/// number of directories where there is none.
pub open spec fn dir_at(dirs: Seq<(String, Option<Vec<u8>>)>, name: Seq<char>, from: int) -> int
    decreases dirs.len() - from,
{
    if from < 0 || from >= dirs.len() {
        dirs.len() as int
    } else if dirs[from].0@ == name {
        from
    } else {
        dir_at(dirs, name, from + 1)
    }
}

/// The metadata under a directory's name.
pub open spec fn meta_under(dirs: Seq<(String, Option<Vec<u8>>)>, name: Seq<char>) -> Option<
    JsonView,
> {
    let at = dir_at(dirs, name, 0);
    if 0 <= at < dirs.len() {
        file_json(opt_bytes(dirs[at].1))
    } else {
        None
    }
}

/// The metadata under a directory's name.
fn read_meta(dirs: &Vec<(String, Option<Vec<u8>>)>, name: &str) -> (meta: Option<Json>)
    ensures
        json::opt_json(meta) == meta_under(dirs@, name@),
{
    let mut i: usize = 0;
    while i < dirs.len()
        invariant
            i <= dirs@.len(),
            dir_at(dirs@, name@, i as int) == dir_at(dirs@, name@, 0),
        decreases dirs@.len() - i,
    {
        if str_eq(dirs[i].0.as_str(), name) {
            return read_json_bounded(&dirs[i].1);
        }
        i += 1;
    }
    None
}

/// The title in a directory's metadata.
pub open spec fn meta_title(store: SessionStore, key: Seq<char>) -> Option<Seq<char>> {
    match meta_under(store.indexed@, key) {
        Some(meta) => field_text(meta, "title"@),
        None => None,
    }
}

/// The title in the metadata of a directory that the index names.
pub fn read_meta_title(store: &SessionStore, key: &str) -> (title: Option<String>)
    ensures
        model::opt_text(title) == meta_title(*store, key@),
{
    match read_meta(&store.indexed, key) {
        Some(meta) => string_field(&meta, "title"),
        None => None,
    }
}

/// Whether the metadata of the directory `name` carries this session's id.
pub open spec fn carries_id(dir: (String, Option<Vec<u8>>), session_id: Seq<char>) -> bool {
    &&& text::stands_at(dir.0@, "session_"@, 0)
    &&& match file_json(opt_bytes(dir.1)) {
        Some(meta) => json::str_of(meta.get("session_id"@)) == Some(session_id),
        None => false,
    }
}

/// The position of the first directory from `from` on that carries this
/// session's id, or the number of directories where there is none.
pub open spec fn carrier_at(
    dirs: Seq<(String, Option<Vec<u8>>)>,
    session_id: Seq<char>,
    from: int,
) -> int
    decreases dirs.len() - from,
{
    if from < 0 || from >= dirs.len() {
        dirs.len() as int
    } else if carries_id(dirs[from], session_id) {
        from
    } else {
        carrier_at(dirs, session_id, from + 1)
    }
}

/// The position of the first listed directory whose metadata carries this
/// session's id.
fn find_meta_dir(dirs: &Vec<(String, Option<Vec<u8>>)>, session_id: &str) -> (at: Option<usize>)
    ensures
        match at {
            Some(at) => at < dirs@.len() && at == carrier_at(dirs@, session_id@, 0),
            None => carrier_at(dirs@, session_id@, 0) == dirs@.len(),
        },
{
    let mut i: usize = 0;
    while i < dirs.len()
        invariant
            i <= dirs@.len(),
            carrier_at(dirs@, session_id@, i as int) == carrier_at(dirs@, session_id@, 0),
        decreases dirs@.len() - i,
    {
        if starts_with(dirs[i].0.as_str(), "session_") {
            if let Some(meta) = read_json_bounded(&dirs[i].1) {
                if let Some(id) = read_str(meta.get("session_id")) {
                    if str_eq(id, session_id) {
                        return Some(i);
                    }
                }
            }
        }
        i += 1;
    }
    None
}

/// The position of the first record from `from` on with this id, or the number
/// of records where there is none.
pub open spec fn entry_at(entries: Seq<EntryView>, session_id: Seq<char>, from: int) -> int
    decreases entries.len() - from,
{
    if from < 0 || from >= entries.len() {
        entries.len() as int
    } else if entries[from].id == session_id {
        from
    } else {
        entry_at(entries, session_id, from + 1)
    }
}

/// The position of the first record with this id.
fn find_entry(entries: &Vec<IndexEntry>, session_id: &str) -> (at: Option<usize>)
    ensures
        match at {
            Some(at) => at < entries@.len() && at == entry_at(
                entry_views(entries@),
                session_id@,
                0,
            ),
            None => entry_at(entry_views(entries@), session_id@, 0) == entries@.len(),
        },
{
    let ghost all = entry_views(entries@);
    let mut i: usize = 0;
    while i < entries.len()
        invariant
            i <= entries@.len(),
            all == entry_views(entries@),
            entry_at(all, session_id@, i as int) == entry_at(all, session_id@, 0),
        decreases entries@.len() - i,
    {
        assert(all[i as int] == entries@[i as int]@);
        if str_eq(entries[i].id.as_str(), session_id) {
            return Some(i);
        }
        i += 1;
    }
    None
}

/// The identity that a record of the index gives; a title that is missing there
/// is taken from the metadata.
pub open spec fn identity_of(store: SessionStore, entry: EntryView) -> IdentityView {
    IdentityView { id: entry.id, title: json::first_of(entry.title, meta_title(store, entry.key)) }
}

/// The identity that a record of the index gives.
fn identify(store: &SessionStore, entry: &IndexEntry) -> (identity: SessionIdentity)
    ensures
        identity@ == identity_of(*store, entry@),
{
    SessionIdentity {
        id: entry.id.clone(),
        title: match &entry.title {
            Some(title) => Some(title.clone()),
            None => read_meta_title(store, entry.key.as_str()),
        },
    }
}

/// The session with this id: by its record, else by its metadata, since the
/// index can lag behind a fresh session.
pub open spec fn session_in(store: SessionStore, session_id: Seq<char>) -> Option<IdentityView> {
    let entries = index_entries(file_json(opt_bytes(store.index)));
    let at = entry_at(entries, session_id, 0);
    let carrier = carrier_at(store.listed@, session_id, 0);
    if 0 <= at < entries.len() {
        Some(identity_of(store, entries[at]))
    } else if 0 <= carrier < store.listed@.len() {
        match file_json(opt_bytes(store.listed@[carrier].1)) {
            Some(meta) => Some(
                IdentityView { id: session_id, title: field_text(meta, "title"@) },
            ),
            None => None,
        }
    } else {
        None
    }
}

/// The session with this id.
pub fn find_session_in(store: &SessionStore, session_id: &str) -> (found: Option<SessionIdentity>)
    ensures
        opt_identity(found) == session_in(*store, session_id@),
{
    let entries = parse_index(&store.index);
    let ghost all = entry_views(entries@);
    if let Some(at) = find_entry(&entries, session_id) {
        assert(all[at as int] == entries@[at as int]@);
        return Some(identify(store, &entries[at]));
    }
    match find_meta_dir(&store.listed, session_id) {
        Some(at) => match read_json_bounded(&store.listed[at].1) {
            Some(meta) => Some(
                SessionIdentity {
                    id: session_id.to_owned(),
                    title: string_field(&meta, "title"),
                },
            ),
            None => None,
        },
        None => None,
    }
}

/// The session with this id, where there is a store at all.
pub fn find_session(store: &Option<SessionStore>, session_id: &str) -> (found: Option<
    SessionIdentity,
>)
    ensures
        opt_identity(found) == match *store {
            Some(store) => session_in(store, session_id@),
            None => None,
        },
{
    match store {
        Some(store) => find_session_in(store, session_id),
        None => None,
    }
}

/// Whether a record is of a session that began in `cwd` at `cutoff` or later. A
/// record without a start time is none: the match would be ambiguous.
pub open spec fn is_recent(entry: EntryView, cwd: Seq<char>, cutoff: Moment) -> bool {
    &&& entry.cwd matches Some(dir) && paths::path_view(dir) == paths::path_view(cwd)
    &&& entry.start_time matches Some(time) && time.at_or_after(cutoff)
}

/// Whether record `a` began after `b`, or at once with it and was changed no
/// earlier.
pub open spec fn not_older(a: EntryView, b: EntryView) -> bool {
    match (a.start_time, b.start_time) {
        (Some(s), Some(t)) => s.seconds > t.seconds || (s.seconds == t.seconds && (s.nanos
            > t.nanos || (s.nanos == t.nanos && a.mtime_ns >= b.mtime_ns))),
        _ => false,
    }
}

/// The newest recent one among the first `upto` records; of equals the last.
pub open spec fn newest_among(
    entries: Seq<EntryView>,
    cwd: Seq<char>,
    cutoff: Moment,
    upto: int,
) -> Option<int>
    decreases upto,
{
    if upto <= 0 || upto > entries.len() {
        None
    } else {
        let best = newest_among(entries, cwd, cutoff, upto - 1);
        if !is_recent(entries[upto - 1], cwd, cutoff) {
            best
        } else {
            match best {
                Some(at) => if not_older(entries[upto - 1], entries[at]) {
                    Some(upto - 1)
                } else {
                    best
                },
                None => Some(upto - 1),
            }
        }
    }
}

/// The moment `RECENT_SLACK_SECONDS` before a launch, or the first there is. A moment
/// in a leap second counts as one in the second behind it.
pub open spec fn slack_before(since: Moment) -> Moment {
    let leap = since.nanos >= NANOS_PER_SECOND;
    let seconds = since.seconds - RECENT_SLACK_SECONDS + if leap {
        1int
    } else {
        0
    };
    Moment {
        seconds: if seconds < i64::MIN {
            i64::MIN
        } else {
            seconds as i64
        },
        nanos: if leap {
            (since.nanos - NANOS_PER_SECOND) as u32
        } else {
            since.nanos
        },
    }
}

/// The moment `RECENT_SLACK_SECONDS` before a launch.
fn cutoff_for(since: Moment) -> (cutoff: Moment)
    ensures
        cutoff == slack_before(since),
{
    let leap = since.nanos >= NANOS_PER_SECOND;
    let back: i64 = if leap {
        RECENT_SLACK_SECONDS - 1
    } else {
        RECENT_SLACK_SECONDS
    };
    Moment {
        seconds: if since.seconds < i64::MIN + back {
            i64::MIN
        } else {
            since.seconds - back
        },
        nanos: if leap {
            since.nanos - NANOS_PER_SECOND
        } else {
            since.nanos
        },
    }
}

/// The most recent session that began in `cwd` at or after `since`, with a small
/// allowance for clock skew.
pub open spec fn recent_session(store: SessionStore, cwd: Seq<char>, since: Moment) -> Option<
    IdentityView,
> {
    let entries = index_entries(file_json(opt_bytes(store.index)));
    match newest_among(entries, cwd, slack_before(since), entries.len() as int) {
        Some(at) => Some(identity_of(store, entries[at])),
        None => None,
    }
}

/// Whether a record is of a recent session.
fn check_recent(entry: &IndexEntry, cwd: &str, cutoff: &Moment) -> (recent: bool)
    ensures
        recent == is_recent(entry@, cwd@, *cutoff),
{
    match (&entry.cwd, &entry.start_time) {
        (Some(dir), Some(time)) => same_path(dir.as_str(), cwd) && time.is_at_or_after(cutoff),
        _ => false,
    }
}

/// Whether record `a` is not older than `b`.
fn check_not_older(a: &IndexEntry, b: &IndexEntry) -> (yes: bool)
    ensures
        yes == not_older(a@, b@),
{
    match (&a.start_time, &b.start_time) {
        (Some(s), Some(t)) => s.seconds > t.seconds || (s.seconds == t.seconds && (s.nanos
            > t.nanos || (s.nanos == t.nanos && a.mtime_ns >= b.mtime_ns))),
        _ => false,
    }
}

/// The most recent session that began in `cwd` at or after `since`.
pub fn find_recent_session(store: &SessionStore, cwd: &str, since: Moment) -> (found: Option<
    SessionIdentity,
>)
    ensures
        opt_identity(found) == recent_session(*store, cwd@, since),
{
    let entries = parse_index(&store.index);
    let cutoff = cutoff_for(since);
    let ghost all = entry_views(entries@);
    let mut best: Option<usize> = None;
    let mut i: usize = 0;
    while i < entries.len()
        invariant
            i <= entries@.len(),
            all == entry_views(entries@),
            match best {
                Some(at) => at < i && newest_among(all, cwd@, cutoff, i as int) == Some(at as int),
                None => newest_among(all, cwd@, cutoff, i as int) is None,
            },
        decreases entries@.len() - i,
    {
        assert(all[i as int] == entries@[i as int]@);
        if check_recent(&entries[i], cwd, &cutoff) {
            match best {
                Some(at) => {
                    assert(all[at as int] == entries@[at as int]@);
                    if check_not_older(&entries[i], &entries[at]) {
                        best = Some(i);
                    }
                },
                None => {
                    best = Some(i);
                },
            }
        }
        i += 1;
    }
    match best {
        Some(at) => {
            assert(all[at as int] == entries@[at as int]@);
            Some(identify(store, &entries[at]))
        },
        None => None,
    }
}

/// The usage that metadata records; nothing where it has no statistics.
pub open spec fn meta_usage(meta: JsonView) -> Option<AgentUsage> {
    match meta.get("stats"@) {
        Some(stats) => Some(
            AgentUsage {
                input_tokens: stats.count("session_prompt_tokens"@),
                output_tokens: stats.count("session_completion_tokens"@),
                reasoning_tokens: 0,
                cache_read_tokens: stats.count("session_cached_tokens"@),
                cache_write_tokens: 0,
                cost_usd: model::reported(json::double_of(stats.get("session_cost"@))),
            },
        ),
        None => None,
    }
}

/// The metadata of the session with this id: that of the directory which the
/// index names, else that of a directory which carries the id.
pub open spec fn session_meta(store: SessionStore, session_id: Seq<char>) -> Option<JsonView> {
    let entries = index_entries(file_json(opt_bytes(store.index)));
    let at = entry_at(entries, session_id, 0);
    let carrier = carrier_at(store.listed@, session_id, 0);
    if 0 <= at < entries.len() {
        meta_under(store.indexed@, entries[at].key)
    } else if 0 <= carrier < store.listed@.len() {
        file_json(opt_bytes(store.listed@[carrier].1))
    } else {
        None
    }
}

/// The directory of the session with this id: the one that the index names, else
/// one whose metadata carries the id.
pub fn session_dir(root: &str, store: &SessionStore, session_id: &str) -> (dir: Option<String>)
    ensures
        ({
            let entries = index_entries(file_json(opt_bytes(store.index)));
            let at = entry_at(entries, session_id@, 0);
            let carrier = carrier_at(store.listed@, session_id@, 0);
            model::opt_text(dir) == if 0 <= at < entries.len() {
                Some(paths::joined(sessions_path(root@), entries[at].key))
            } else if 0 <= carrier < store.listed@.len() {
                Some(paths::joined(sessions_path(root@), store.listed@[carrier].0@))
            } else {
                None
            }
        }),
{
    let entries = parse_index(&store.index);
    let ghost all = entry_views(entries@);
    if let Some(at) = find_entry(&entries, session_id) {
        assert(all[at as int] == entries@[at as int]@);
        return Some(join(sessions_dir(root).as_str(), entries[at].key.as_str()));
    }
    match find_meta_dir(&store.listed, session_id) {
        Some(at) => Some(join(sessions_dir(root).as_str(), store.listed[at].0.as_str())),
        None => None,
    }
}

/// The usage that the metadata of the session with this id records.
pub fn read_meta_usage(store: &SessionStore, session_id: &str) -> (usage: Option<AgentUsage>)
    ensures
        usage == match session_meta(*store, session_id@) {
            Some(meta) => meta_usage(meta),
            None => None,
        },
{
    let entries = parse_index(&store.index);
    let ghost all = entry_views(entries@);
    let meta = match find_entry(&entries, session_id) {
        Some(at) => {
            assert(all[at as int] == entries@[at as int]@);
            read_meta(&store.indexed, entries[at].key.as_str())
        },
        None => match find_meta_dir(&store.listed, session_id) {
            Some(at) => read_json_bounded(&store.listed[at].1),
            None => None,
        },
    };
    match &meta {
        Some(meta) => match meta.get("stats") {
            Some(stats) => Some(
                AgentUsage {
                    input_tokens: stats.count("session_prompt_tokens"),
                    output_tokens: stats.count("session_completion_tokens"),
                    reasoning_tokens: 0,
                    cache_read_tokens: stats.count("session_cached_tokens"),
                    cache_write_tokens: 0,
                    cost_usd: reported_cost(read_double(stats.get("session_cost"))),
                },
            ),
            None => None,
        },
        None => None,
    }
}

/// The directories that an index file names.
pub fn index_keys(data: &Option<Vec<u8>>) -> (keys: Vec<String>)
    ensures
        text::views(keys@) == index_entries(file_json(opt_bytes(*data))).map_values(
            |e: EntryView| e.key,
        ),
{
    let entries = parse_index(data);
    let ghost all = entry_views(entries@).map_values(|e: EntryView| e.key);
    let mut keys: Vec<String> = Vec::new();
    let mut i: usize = 0;
    while i < entries.len()
        invariant
            i <= entries@.len(),
            all == entry_views(entries@).map_values(|e: EntryView| e.key),
            text::views(keys@) == all.take(i as int),
        decreases entries@.len() - i,
    {
        push_text(&mut keys, entries[i].key.clone());
        assert(text::views(keys@) == all.take(i + 1));
        i += 1;
    }
    assert(all.take(i as int) == all);
    keys
}

/// The session that is found is recent, and no recent one began later.
pub proof fn law_found_session_is_the_newest(
    entries: Seq<EntryView>,
    cwd: Seq<char>,
    cutoff: Moment,
    upto: int,
)
    requires
        0 <= upto <= entries.len(),
    ensures
        match newest_among(entries, cwd, cutoff, upto) {
            Some(at) => {
                &&& 0 <= at < upto
                &&& is_recent(entries[at], cwd, cutoff)
                &&& forall|j: int|
                    0 <= j < upto && #[trigger] is_recent(entries[j], cwd, cutoff) ==> not_older(
                        entries[at],
                        entries[j],
                    )
            },
            None => forall|j: int|
                0 <= j < upto ==> !#[trigger] is_recent(entries[j], cwd, cutoff),
        },
    decreases upto,
{
    if upto > 0 {
        law_found_session_is_the_newest(entries, cwd, cutoff, upto - 1);
    }
}

} // verus!
