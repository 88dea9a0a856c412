//! Which session of Vibe's store is found, and what its records say of it.
use crate::agents::terms;
use crate::agents::vibe::session_index;
use crate::agents::vibe::session_index::{EntryView, IdentityView, SessionStore};
use crate::json as tree;
use crate::json::JsonView;
use crate::model::{AgentUsage, Moment};
use crate::paths;
use crate::text;
use vstd::prelude::*;

verus! {

/// A text field without white space around it, unless it is blank.
pub open spec fn stated(value: JsonView, key: Seq<char>) -> Option<Seq<char>> {
    terms::given(text::trimmed(terms::words(value.get(key))))
}

/// The moment that a field names.
pub open spec fn moment(value: JsonView, key: Seq<char>) -> Option<Moment> {
    match value.get(key) {
        Some(JsonView::Str(s)) => match session_index::rfc3339_moment(s) {
            Some(at) => Some(Moment { seconds: at.0, nanos: at.1 }),
            None => None,
        },
        _ => None,
    }
}

proof fn lemma_stated(value: JsonView, key: Seq<char>)
    ensures
        session_index::field_text(value, key) == stated(value, key),
{
    if let Some(JsonView::Str(s)) = value.get(key) {
    } else {
        let none = Seq::<char>::empty();
        assert(text::trimmed_start(none) == none);
        assert(text::trimmed_end(none) == none);
    }
}

/// The first 256 KiB of a file are read, and nothing where they are no JSON.
pub proof fn law_file_is_read_from_the_start(data: Seq<u8>)
    ensures
        ({
            let read = data.take(
                if data.len() > 262144 {
                    262144
                } else {
                    data.len() as int
                },
            );
            &&& tree::parsed_bytes(read) matches Ok(value) ==> session_index::bounded_json(data)
                == Some(value)
            &&& tree::parsed_bytes(read) is Err ==> session_index::bounded_json(data) is None
        }),
{
    assert(data.take(data.len() as int) =~= data);
}

/// A field of the index is a record exactly where it has an id; each of its texts is
/// without white space around it, and none where it is blank.
pub proof fn law_record_is_read(key: Seq<char>, value: JsonView)
    ensures
        session_index::entry_in(key, value) == match stated(value, "session_id"@) {
            Some(id) => Some(
                EntryView {
                    key,
                    id,
                    cwd: stated(value, "cwd"@),
                    start_time: moment(value, "start_time"@),
                    mtime_ns: terms::tally(value.get("mtime_ns"@)),
                    title: stated(value, "title"@),
                },
            ),
            None => None,
        },
{
    lemma_stated(value, "session_id"@);
    lemma_stated(value, "cwd"@);
    lemma_stated(value, "title"@);
}

proof fn lemma_entries(fields: Seq<(Seq<char>, JsonView)>, more: (Seq<char>, JsonView), from: int)
    requires
        0 <= from <= fields.len(),
    ensures
        session_index::entries_from(fields.push(more), from) =~= session_index::entries_from(
            fields,
            from,
        ) + match session_index::entry_in(more.0, more.1) {
            Some(entry) => seq![entry],
            None => Seq::empty(),
        },
    decreases fields.len() - from,
{
    let all = fields.push(more);
    if from < fields.len() {
        assert(all[from] == fields[from]);
        lemma_entries(fields, more, from + 1);
    } else {
        assert(all[from] == more);
        assert(session_index::entries_from(all, from + 1) =~= Seq::<EntryView>::empty());
    }
}

/// The records of an index stand in its order: one more field adds its record at the end,
/// or nothing where it is none. What is no object has no records.
pub proof fn law_records_stand_in_order(
    fields: Seq<(Seq<char>, JsonView)>,
    key: Seq<char>,
    value: JsonView,
)
    ensures
        session_index::index_entries(Some(JsonView::Object(fields.push((key, value)))))
            =~= session_index::index_entries(Some(JsonView::Object(fields))) + match stated(
            value,
            "session_id"@,
        ) {
            Some(id) => seq![session_index::entry_in(key, value)->0],
            None => Seq::empty(),
        },
        session_index::index_entries(Some(JsonView::Object(Seq::empty()))).len() == 0,
        session_index::index_entries(None).len() == 0,
{
    lemma_entries(fields, (key, value), 0);
    law_record_is_read(key, value);
}

/// The records that a store's index holds.
pub open spec fn records(store: SessionStore) -> Seq<EntryView> {
    session_index::index_entries(
        match store.index {
            Some(data) => session_index::bounded_json(data@),
            None => None,
        },
    )
}

/// The value in the metadata of a directory.
pub open spec fn metadata(dir: (String, Option<Vec<u8>>)) -> Option<JsonView> {
    match dir.1 {
        Some(data) => session_index::bounded_json(data@),
        None => None,
    }
}

/// Whether a directory is a session's whose metadata carry this id.
pub open spec fn carries(dir: (String, Option<Vec<u8>>), id: Seq<char>) -> bool {
    &&& text::stands_at(dir.0@, "session_"@, 0)
    &&& metadata(dir) matches Some(meta) && meta.get("session_id"@) == Some(JsonView::Str(id))
}

proof fn lemma_carries(dir: (String, Option<Vec<u8>>), id: Seq<char>)
    ensures
        session_index::carries_id(dir, id) == carries(dir, id),
{
    if let Some(meta) = metadata(dir) {
        if let Some(JsonView::Str(s)) = meta.get("session_id"@) {
            assert(tree::str_of(meta.get("session_id"@)) == Some(s));
        }
    }
}

pub proof fn lemma_entry_at(entries: Seq<EntryView>, id: Seq<char>, from: int, at: int)
    requires
        0 <= from <= at <= entries.len(),
        forall|i: int| from <= i < at ==> (#[trigger] entries[i]).id != id,
        at < entries.len() ==> entries[at].id == id,
    ensures
        session_index::entry_at(entries, id, from) == at,
    decreases at - from,
{
    if from < at {
        assert(entries[from].id != id);
        lemma_entry_at(entries, id, from + 1, at);
    }
}

proof fn lemma_carrier_at(dirs: Seq<(String, Option<Vec<u8>>)>, id: Seq<char>, from: int, at: int)
    requires
        0 <= from <= at <= dirs.len(),
        forall|i: int| from <= i < at ==> !carries(#[trigger] dirs[i], id),
        at < dirs.len() ==> carries(dirs[at], id),
    ensures
        session_index::carrier_at(dirs, id, from) == at,
    decreases at - from,
{
    if from < dirs.len() {
        lemma_carries(dirs[from], id);
    }
    if from < at {
        assert(!carries(dirs[from], id));
        lemma_carrier_at(dirs, id, from + 1, at);
    }
}

proof fn lemma_dir_at(dirs: Seq<(String, Option<Vec<u8>>)>, name: Seq<char>, from: int, at: int)
    requires
        0 <= from <= at <= dirs.len(),
        forall|i: int| from <= i < at ==> (#[trigger] dirs[i]).0@ != name,
        at < dirs.len() ==> dirs[at].0@ == name,
    ensures
        session_index::dir_at(dirs, name, from) == at,
    decreases at - from,
{
    if from < at {
        assert(dirs[from].0@ != name);
        lemma_dir_at(dirs, name, from + 1, at);
    }
}

/// A session that the index records is found by the first record with its id: its title is
/// the one recorded there, else the one in the metadata of the directory that the record
/// names, the first of that name.
pub proof fn law_recorded_session_is_found(store: SessionStore, at: int, dir: int)
    requires
        0 <= at < records(store).len(),
        forall|i: int| 0 <= i < at ==> (#[trigger] records(store)[i]).id != records(store)[at].id,
        0 <= dir <= store.indexed@.len(),
        forall|i: int|
            0 <= i < dir ==> (#[trigger] store.indexed@[i]).0@ != records(store)[at].key,
        dir < store.indexed@.len() ==> store.indexed@[dir].0@ == records(store)[at].key,
    ensures
        ({
            let entry = records(store)[at];
            let meta = if dir < store.indexed@.len() {
                metadata(store.indexed@[dir])
            } else {
                None
            };
            &&& session_index::session_in(store, entry.id) == Some(
                IdentityView {
                    id: entry.id,
                    title: match (entry.title, meta) {
                        (Some(title), _) => Some(title),
                        (None, Some(meta)) => stated(meta, "title"@),
                        (None, None) => None,
                    },
                },
            )
            &&& session_index::session_meta(store, entry.id) == meta
        }),
{
    let entry = records(store)[at];
    lemma_entry_at(records(store), entry.id, 0, at);
    lemma_dir_at(store.indexed@, entry.key, 0, dir);
    if dir < store.indexed@.len() {
        if let Some(meta) = metadata(store.indexed@[dir]) {
            lemma_stated(meta, "title"@);
        }
    }
}

/// A session that the index does not record is found by the first directory whose metadata
/// carry its id, and is not there where none does.
pub proof fn law_unrecorded_session_is_found_by_its_metadata(
    store: SessionStore,
    id: Seq<char>,
    at: int,
)
    requires
        forall|i: int| 0 <= i < records(store).len() ==> (#[trigger] records(store)[i]).id != id,
        0 <= at <= store.listed@.len(),
        forall|i: int| 0 <= i < at ==> !carries(#[trigger] store.listed@[i], id),
        at < store.listed@.len() ==> carries(store.listed@[at], id),
    ensures
        at < store.listed@.len() ==> {
            &&& session_index::session_in(store, id) == Some(
                IdentityView { id, title: stated(metadata(store.listed@[at])->0, "title"@) },
            )
            &&& session_index::session_meta(store, id) == metadata(store.listed@[at])
        },
        at == store.listed@.len() ==> {
            &&& session_index::session_in(store, id) is None
            &&& session_index::session_meta(store, id) is None
        },
{
    lemma_entry_at(records(store), id, 0, records(store).len() as int);
    lemma_carrier_at(store.listed@, id, 0, at);
    if at < store.listed@.len() {
        if let Some(meta) = metadata(store.listed@[at]) {
            lemma_stated(meta, "title"@);
        }
    }
}

/// A record is recent exactly where it names the directory and began no earlier than the
/// cutoff; one without a start is not.
pub proof fn law_recent_record(entry: EntryView, cwd: Seq<char>, cutoff: Moment)
    ensures
        session_index::is_recent(entry, cwd, cutoff) <==> entry.cwd is Some && paths::path_view(
            entry.cwd->0,
        ) == paths::path_view(cwd) && entry.start_time is Some && (entry.start_time->0.seconds
            > cutoff.seconds || (entry.start_time->0.seconds == cutoff.seconds
            && entry.start_time->0.nanos >= cutoff.nanos)),
{
}

/// Of two records that began, one is no older than the other; where each is no older than
/// the other they began and changed at once; and a later start decides before a later
/// change.
pub proof fn law_records_are_ordered(a: EntryView, b: EntryView)
    requires
        a.start_time is Some,
        b.start_time is Some,
    ensures
        session_index::not_older(a, b) || session_index::not_older(b, a),
        session_index::not_older(a, b) && session_index::not_older(b, a) ==> a.start_time
            == b.start_time && a.mtime_ns == b.mtime_ns,
        a.start_time->0.seconds > b.start_time->0.seconds ==> !session_index::not_older(b, a),
        a.start_time->0.seconds == b.start_time->0.seconds && a.start_time->0.nanos
            > b.start_time->0.nanos ==> !session_index::not_older(b, a),
        a.start_time == b.start_time && a.mtime_ns > b.mtime_ns ==> !session_index::not_older(b, a),
{
}

/// The recent session is a recorded one that began in the directory within ten seconds
/// before the launch or later, and none of those is newer; there is none where no record is
/// recent.
pub proof fn law_recent_session_is_the_newest(store: SessionStore, cwd: Seq<char>, since: Moment)
    requires
        since.nanos < 1000000000,
        since.seconds >= i64::MIN + 10,
    ensures
        ({
            let cutoff = Moment { seconds: (since.seconds - 10) as i64, nanos: since.nanos };
            match session_index::recent_session(store, cwd, since) {
                Some(found) => exists|at: int|
                    0 <= at < records(store).len() && session_index::is_recent(
                        #[trigger] records(store)[at],
                        cwd,
                        cutoff,
                    ) && found == session_index::identity_of(store, records(store)[at]) && forall|
                        j: int,
                    |
                        0 <= j < records(store).len() && session_index::is_recent(
                            #[trigger] records(store)[j],
                            cwd,
                            cutoff,
                        ) ==> session_index::not_older(records(store)[at], records(store)[j]),
                None => forall|j: int|
                    0 <= j < records(store).len() ==> !session_index::is_recent(
                        #[trigger] records(store)[j],
                        cwd,
                        cutoff,
                    ),
            }
        }),
{
    let cutoff = Moment { seconds: (since.seconds - 10) as i64, nanos: since.nanos };
    assert(session_index::slack_before(since) == cutoff);
    let all = records(store);
    session_index::law_found_session_is_the_newest(all, cwd, cutoff, all.len() as int);
    if let Some(at) = session_index::newest_among(all, cwd, cutoff, all.len() as int) {
        assert(session_index::is_recent(all[at], cwd, cutoff));
    }
}

/// Metadata with statistics report the tokens of the whole session and its cost.
pub proof fn law_statistics_are_usage(meta: JsonView)
    ensures
        session_index::meta_usage(meta) == match meta.get("stats"@) {
            Some(stats) => Some(
                AgentUsage {
                    input_tokens: terms::tally(stats.get("session_prompt_tokens"@)),
                    output_tokens: terms::tally(stats.get("session_completion_tokens"@)),
                    reasoning_tokens: 0,
                    cache_read_tokens: terms::tally(stats.get("session_cached_tokens"@)),
                    cache_write_tokens: 0,
                    cost_usd: terms::dollars(stats.get("session_cost"@)),
                },
            ),
            None => None,
        },
{
}

/// Vibe's home is the configured one, and only without it the usual one of the user.
pub proof fn law_configured_home_wins(dir: Seq<char>, home: Option<Seq<char>>)
    ensures
        session_index::home_in(Some(dir), home) == Some(dir),
        session_index::home_in(None, Some(dir)) == Some(paths::joined(dir, ".vibe"@)),
        session_index::home_in(None, None) is None,
{
}

} // verus!
