//! Watching the directory of tasks, to reload their catalog.
use crate::paths;
use crate::paths::{extension, is_absolute, parts, same_path};
use crate::text;
use crate::text::{link, push_text, str_eq, to_ascii_lower};
use vstd::prelude::*;

verus! {

/// How long the directory has to be quiet before the catalog is reloaded, in
/// milliseconds: editors often write several times.
pub const DEBOUNCE: u64 = 200;

/// A path with these parts, as it is written.
pub open spec fn path_text(absolute: bool, steps: Seq<Seq<char>>) -> Seq<char> {
    if absolute {
        "/"@ + text::linked(steps, "/"@)
    } else {
        text::linked(steps, "/"@)
    }
}

/// The places that may be watched: the directory itself, and those above it, the
/// nearest first.
pub open spec fn places(tasks_dir: Seq<char>) -> Seq<Seq<char>> {
    let path = paths::path_view(tasks_dir);
    seq![tasks_dir] + Seq::new(
        path.parts.len(),
        |i: int| path_text(path.absolute, path.parts.take(path.parts.len() - 1 - i)),
    )
}

/// The places that may be watched.
pub fn watch_places(tasks_dir: &str) -> (all: Vec<String>)
    ensures
        text::views(all@) == places(tasks_dir@),
{
    let absolute = is_absolute(tasks_dir);
    let mut steps = parts(tasks_dir);
    let ghost path = paths::path_view(tasks_dir@);
    let mut all: Vec<String> = Vec::new();
    assert(text::views(all@) == Seq::<Seq<char>>::empty());
    push_text(&mut all, tasks_dir.to_owned());
    assert(path.parts.take(path.parts.len() as int) == path.parts);
    let ghost goal = places(tasks_dir@);
    assert(text::views(all@) == goal.take(1));
    while steps.len() > 0
        invariant
            path == paths::path_view(tasks_dir@),
            absolute == path.absolute,
            goal == places(tasks_dir@),
            steps@.len() <= path.parts.len(),
            text::views(steps@) == path.parts.take(steps@.len() as int),
            text::views(all@) == goal.take(1 + path.parts.len() - steps@.len()),
        decreases steps@.len(),
    {
        let ghost n = steps@.len();
        let ghost before = steps@;
        let _ = steps.pop();
        assert(text::views(steps@) == path.parts.take(n - 1)) by {
            assert(steps@ == before.drop_last());
            assert(text::views(before) == path.parts.take(n as int));
            assert(text::views(steps@) == text::views(before).drop_last());
        }
        let above = link(&steps, "/");
        let place = if absolute {
            "/".to_owned().concat(above.as_str())
        } else {
            above
        };
        assert(place@ == path_text(path.absolute, path.parts.take(n - 1)));
        assert(goal[1 + path.parts.len() - n] == place@);
        push_text(&mut all, place);
        assert(text::views(all@) == goal.take(1 + path.parts.len() - (n - 1)));
    }
    assert(goal.take(1 + path.parts.len() as int) == goal);
    all
}

/// Whether `exists` may say this of a place.
pub open spec fn says<F: Fn(&str) -> bool>(exists_at: F, place: Seq<char>, there: bool) -> bool {
    exists|p: &str| p@ == place && #[trigger] call_ensures(exists_at, (p,), there)
}

/// Whether `target` is the place to watch: the first that exists, or else the working
/// directory.
pub open spec fn targeted<F: Fn(&str) -> bool>(
    tasks_dir: Seq<char>,
    exists_at: F,
    target: Seq<char>,
) -> bool {
    let all = places(tasks_dir);
    ||| exists|i: int|
        0 <= i < all.len() && target == #[trigger] all[i] && says(exists_at, all[i], true)
            && forall|k: int| 0 <= k < i ==> says(exists_at, #[trigger] all[k], false)
    ||| target == "."@ && forall|k: int|
        0 <= k < all.len() ==> says(exists_at, #[trigger] all[k], false)
}

/// The place to watch: the directory of tasks where it exists, else the nearest above
/// it that does, so that its creation is seen.
pub fn watch_target<F: Fn(&str) -> bool>(tasks_dir: &str, exists_at: &F) -> (target: String)
    requires
        forall|p: &str| call_requires(*exists_at, (p,)),
    ensures
        targeted(tasks_dir@, *exists_at, target@),
{
    let all = watch_places(tasks_dir);
    let ghost goal = places(tasks_dir@);
    let mut i: usize = 0;
    while i < all.len()
        invariant
            i <= all@.len(),
            goal == places(tasks_dir@),
            text::views(all@) == goal,
            forall|p: &str| call_requires(*exists_at, (p,)),
            forall|k: int| 0 <= k < i ==> says(*exists_at, #[trigger] goal[k], false),
        decreases all@.len() - i,
    {
        assert(goal[i as int] == all@[i as int]@);
        let place = all[i].as_str();
        if exists_at(place) {
            assert(says(*exists_at, goal[i as int], true));
            return all[i].clone();
        }
        assert(says(*exists_at, goal[i as int], false));
        i += 1;
    }
    ".".to_owned()
}

/// Where the watcher is to be pointed, where that is elsewhere than it is: the
/// directory has appeared or gone.
pub fn retarget<F: Fn(&str) -> bool>(watching: &str, tasks_dir: &str, exists_at: &F) -> (target: Option<
    String,
>)
    requires
        forall|p: &str| call_requires(*exists_at, (p,)),
    ensures
        match target {
            Some(target) => {
                &&& targeted(tasks_dir@, *exists_at, target@)
                &&& paths::path_view(target@) != paths::path_view(watching@)
                &&& paths::path_view(watching@) != paths::path_view(tasks_dir@) || says(
                    *exists_at,
                    watching@,
                    false,
                )
            },
            None => {
                ||| paths::path_view(watching@) == paths::path_view(tasks_dir@) && says(
                    *exists_at,
                    watching@,
                    true,
                )
                ||| exists|target: Seq<char>| #[trigger]
                    targeted(tasks_dir@, *exists_at, target) && paths::path_view(target)
                        == paths::path_view(watching@)
            },
        },
{
    if same_path(watching, tasks_dir) {
        if exists_at(watching) {
            assert(says(*exists_at, watching@, true));
            return None;
        }
        assert(says(*exists_at, watching@, false));
    }
    let target = watch_target(tasks_dir, exists_at);
    if same_path(target.as_str(), watching) {
        return None;
    }
    Some(target)
}

/// Whether a change of this path may be one of a task.
pub open spec fn concerns_task(path: Seq<char>) -> bool {
    match paths::extension_of(path) {
        Some(ext) => text::ascii_lowered(ext) == "md"@,
        None => true,
    }
}

/// Whether a change of these paths may be one of a task. What has no extension may be
/// a directory; the scratch files of editors are no tasks.
pub fn event_relevant(changed: &Vec<String>) -> (relevant: bool)
    ensures
        relevant == (changed@.len() == 0 || exists|i: int|
            0 <= i < changed@.len() && concerns_task(#[trigger] changed@[i]@)),
{
    if changed.len() == 0 {
        return true;
    }
    let mut i: usize = 0;
    while i < changed.len()
        invariant
            i <= changed@.len(),
            forall|k: int| 0 <= k < i ==> !concerns_task(#[trigger] changed@[k]@),
        decreases changed@.len() - i,
    {
        let concerns = match extension(changed[i].as_str()) {
            Some(ext) => str_eq(to_ascii_lower(ext.as_str()).as_str(), "md"),
            None => true,
        };
        if concerns {
            return true;
        }
        i += 1;
    }
    false
}

/// What a watcher of changes waits for.
#[derive(Debug, Clone, Copy, PartialEq, Eq, Structural)]
pub enum Debounce {
    /// A first change.
    Idle,
    /// The end of a burst.
    Settling,
    /// Nothing more: the watcher is gone.
    Ended,
}

/// What a watcher of changes sees.
#[derive(Debug, Clone, Copy, PartialEq, Eq, Structural)]
pub enum Sign {
    Changed,
    /// Nothing changed for [`DEBOUNCE`].
    Quiet,
    Closed,
}

impl Debounce {
    /// What is waited for after a sign.
    pub open spec fn next(self, sign: Sign) -> Debounce {
        match (self, sign) {
            (Debounce::Ended, _) => Debounce::Ended,
            (_, Sign::Closed) => Debounce::Ended,
            (_, Sign::Changed) => Debounce::Settling,
            (_, Sign::Quiet) => Debounce::Idle,
        }
    }

    /// Whether a sign has the catalog reloaded.
    pub open spec fn reloads(self, sign: Sign) -> bool {
        self == Debounce::Settling && sign == Sign::Quiet
    }

    /// Takes a sign, and says whether the catalog is to be reloaded.
    pub fn step(&mut self, sign: Sign) -> (reload: bool)
        ensures
            *final(self) == old(self).next(sign),
            reload == old(self).reloads(sign),
    {
        match (*self, sign) {
            (Debounce::Ended, _) => false,
            (_, Sign::Closed) => {
                *self = Debounce::Ended;
                false
            },
            (_, Sign::Changed) => {
                *self = Debounce::Settling;
                false
            },
            (Debounce::Settling, Sign::Quiet) => {
                *self = Debounce::Idle;
                true
            },
            (Debounce::Idle, Sign::Quiet) => false,
        }
    }
}

/// The state after several signs.
pub open spec fn after(start: Debounce, signs: Seq<Sign>) -> Debounce
    decreases signs.len(),
{
    if signs.len() == 0 {
        start
    } else {
        after(start, signs.drop_last()).next(signs.last())
    }
}

/// How often several signs have the catalog reloaded.
pub open spec fn reload_count(start: Debounce, signs: Seq<Sign>) -> nat
    decreases signs.len(),
{
    if signs.len() == 0 {
        0
    } else {
        reload_count(start, signs.drop_last()) + if after(start, signs.drop_last()).reloads(
            signs.last(),
        ) {
            1nat
        } else {
            0
        }
    }
}

/// A burst of changes has the catalog reloaded once, when it is over.
pub proof fn law_burst_reloads_once(burst: Seq<Sign>)
    requires
        burst.len() > 0,
        forall|i: int| 0 <= i < burst.len() ==> #[trigger] burst[i] == Sign::Changed,
    ensures
        reload_count(Debounce::Idle, burst) == 0,
        reload_count(Debounce::Idle, burst.push(Sign::Quiet)) == 1,
        after(Debounce::Idle, burst.push(Sign::Quiet)) == Debounce::Idle,
{
    lemma_burst(burst);
    assert(burst.push(Sign::Quiet).drop_last() == burst);
}

proof fn lemma_burst(burst: Seq<Sign>)
    requires
        forall|i: int| 0 <= i < burst.len() ==> #[trigger] burst[i] == Sign::Changed,
    ensures
        reload_count(Debounce::Idle, burst) == 0,
        burst.len() > 0 ==> after(Debounce::Idle, burst) == Debounce::Settling,
    decreases burst.len(),
{
    if burst.len() > 0 {
        assert forall|i: int| 0 <= i < burst.drop_last().len() implies #[trigger] burst.drop_last()[i]
            == Sign::Changed by {
            assert(burst.drop_last()[i] == burst[i]);
        }
        lemma_burst(burst.drop_last());
        assert(burst.last() == burst[burst.len() - 1]);
    }
}

} // verus!
