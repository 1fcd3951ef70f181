//! The decisions of the background watcher, which records a snapshot each time
//! a tracked file is created or modified. The event loop that waits for file
//! system events, reads files and keeps time lives outside the library; it
//! asks this module what to do.
use vstd::prelude::*;
use crate::domain::entity::{FileEntity, SnapshotEntity};
use crate::domain::repository::SnapshotRepository;
use crate::domain::date::{lemma_read_from_clock, reading_text, unix_time_now};
use crate::domain::service::{
    add_snapshot_from_draw, is_drawn_snapshot, is_fresh_snapshot, is_snapshot_from_draw,
    snapshot_draw_can_fail,
};
use crate::domain::uuid_util::{lemma_drawn_from_random_source, random_bits};
use crate::text::owned;

verus! {

/// How often the watcher re-reads the list of tracked files, in milliseconds.
pub const WATCH_REFRESH_INTERVAL_MS: u64 = 2000;

/// How long the watcher waits for a file system event before looking again,
/// in milliseconds.
pub const EVENT_POLL_TIMEOUT_MS: u64 = 200;

/// The kind of a file system event, as far as the watcher tells kinds apart.
#[derive(Clone, Copy, Debug, PartialEq, Eq)]
pub enum WatchEventKind {
    Any,
    Access,
    Create,
    Modify,
    Remove,
    Other,
}

/// Only creations and modifications of a file lead to a snapshot.
pub fn triggers_snapshot(kind: WatchEventKind) -> (r: bool)
    ensures
        r == (kind == WatchEventKind::Create || kind == WatchEventKind::Modify),
{
    match kind {
        WatchEventKind::Create | WatchEventKind::Modify => true,
        _ => false,
    }
}

/// Whether the list of tracked files is due for a refresh, `elapsed_ms`
/// milliseconds after the last one: it is once the refresh interval has passed.
pub fn refresh_due(elapsed_ms: u128) -> (r: bool)
    ensures
        r == (elapsed_ms >= WATCH_REFRESH_INTERVAL_MS as u128),
{
    elapsed_ms >= WATCH_REFRESH_INTERVAL_MS as u128
}

/// What the watcher remembers, seen abstractly: the paths it watches, and the
/// last content it recorded for each path, each path under its key
/// (`path_key_of`).
pub struct WatchStateView {
    pub watched: Set<Seq<char>>,
    pub last_content: Map<Seq<char>, Seq<char>>,
}

/// The watcher's memory between events.
pub struct SnapshotWatchState {
    watched: Vec<String>,
    last_content: Vec<(String, String)>,
}

/// The set of paths listed in `s`.
pub open spec fn path_set(s: Seq<String>) -> Set<Seq<char>> {
    Set::new(|p: Seq<char>| exists|i: int| 0 <= i < s.len() && s[i]@ == p)
}

/// The map from path to content given by the pairs in `s`.
pub open spec fn content_map(s: Seq<(String, String)>) -> Map<Seq<char>, Seq<char>> {
    Map::new(
        |p: Seq<char>| exists|i: int| 0 <= i < s.len() && s[i].0@ == p,
        |p: Seq<char>| s[choose|i: int| 0 <= i < s.len() && s[i].0@ == p].1@,
    )
}

/// No path occurs twice in `s`.
pub open spec fn distinct_paths(s: Seq<String>) -> bool {
    forall|i: int, j: int| 0 <= i < s.len() && 0 <= j < s.len() && s[i]@ == s[j]@ ==> i == j
}

/// No path occurs twice among the keys of `s`.
pub open spec fn distinct_keys(s: Seq<(String, String)>) -> bool {
    forall|i: int, j: int|
        0 <= i < s.len() && 0 <= j < s.len() && s[i].0@ == s[j].0@ ==> i == j
}

/// Whether the content `content` of `path` is new to a watcher that last
/// recorded `last`: it is, unless it equals the last content recorded for it.
pub open spec fn is_new_content(
    last: Map<Seq<char>, Seq<char>>,
    path: Seq<char>,
    content: Seq<char>,
) -> bool {
    !(last.contains_key(path) && last[path] == content)
}

/// Content that was just recorded for a path is not new when it is read
/// again unchanged: a second identical change records no snapshot.
pub proof fn lemma_repeated_content_is_skipped(
    last: Map<Seq<char>, Seq<char>>,
    path: Seq<char>,
    content: Seq<char>,
)
    ensures
        !is_new_content(last.insert(path, content), path, content),
{
}

/// The first content read from a path is new, whatever its text.
pub proof fn lemma_first_content_is_new(
    last: Map<Seq<char>, Seq<char>>,
    path: Seq<char>,
    content: Seq<char>,
)
    requires
        !last.contains_key(path),
    ensures
        is_new_content(last, path, content),
{
}

/// Whether a content is new depends on the path's last content alone: two
/// contents that both differ from it are both new, whatever their text.
pub proof fn lemma_newness_depends_on_last_content_only(
    last: Map<Seq<char>, Seq<char>>,
    path: Seq<char>,
    c: Seq<char>,
    d: Seq<char>,
)
    requires
        last.contains_key(path) ==> last[path] != c && last[path] != d,
    ensures
        is_new_content(last, path, c),
        is_new_content(last, path, d),
{
}

/// After content has been noted for a path, other content for the same path
/// is new again.
pub proof fn lemma_changed_content_is_recorded(
    last: Map<Seq<char>, Seq<char>>,
    path: Seq<char>,
    content: Seq<char>,
    other: Seq<char>,
)
    requires
        other != content,
    ensures
        is_new_content(last.insert(path, content), path, other),
{
}

/// What `std::path::Path` compares when it compares two paths: the path's
/// components (`Path::components`), collected back into a path and read as
/// text. Repeated separators, `.` components after the first and a trailing
/// separator do not change it.
pub uninterp spec fn path_key_of(path: Seq<char>) -> Seq<char>;

/// `std::path::Path::new(path).components()` collected into a `PathBuf`,
/// as text: the form under which the watcher remembers a path, so that two
/// texts of one path count as the same path, as `PathBuf` equality has it.
/// The result is named.
#[verifier::external_body]
fn path_key(path: &str) -> (r: String)
    ensures
        r@ == path_key_of(path@),
{
    std::path::Path::new(path).components().collect::<std::path::PathBuf>().to_string_lossy().into_owned()
}

/// The path keys of the first `n` listed files.
pub open spec fn listed_keys_upto(files: Seq<FileEntity>, n: int) -> Set<Seq<char>> {
    Set::new(|k: Seq<char>| exists|j: int| 0 <= j < n && path_key_of(files[j].path@) == k)
}

/// The path keys of the listed files.
pub open spec fn listed_keys(files: Seq<FileEntity>) -> Set<Seq<char>> {
    listed_keys_upto(files, files.len() as int)
}

/// The path keys of the paths in `s`.
pub open spec fn key_set(s: Seq<String>) -> Set<Seq<char>> {
    Set::new(|k: Seq<char>| exists|i: int| 0 <= i < s.len() && path_key_of(s[i]@) == k)
}

/// No two paths of `s` have the same key.
pub open spec fn distinct_path_keys(s: Seq<String>) -> bool {
    forall|i: int, j: int|
        0 <= i < s.len() && 0 <= j < s.len() && path_key_of(s[i]@) == path_key_of(s[j]@) ==> i
            == j
}

/// `plan[i]` is the path of the listed file `files[at[i]]`, and the positions
/// `at` increase: the plan keeps the order of the listing.
pub open spec fn in_listing_order(plan: Seq<String>, files: Seq<FileEntity>, at: Seq<int>) -> bool {
    &&& at.len() == plan.len()
    &&& forall|i: int| 0 <= i < plan.len() ==> 0 <= #[trigger] at[i] < files.len() && plan[i]@
        == files[at[i]].path@
    &&& forall|i: int, k: int| 0 <= i < k < plan.len() ==> at[i] < at[k]
}

/// The keys of the paths among the first `n` of `plan` whose watching succeeded.
pub open spec fn watch_succeeded(plan: Seq<String>, outcomes: Seq<bool>, n: int) -> Set<Seq<char>> {
    Set::new(
        |k: Seq<char>| exists|i: int| 0 <= i < n && path_key_of(plan[i]@) == k && outcomes[i],
    )
}

/// Whether `path` is listed in `v`.
fn lists_path(v: &Vec<String>, path: &str) -> (r: bool)
    ensures
        r == path_set(v@).contains(path@),
{
    let target = owned(path);
    let mut i: usize = 0;
    while i < v.len()
        invariant
            i <= v@.len(),
            target@ == path@,
            forall|j: int| 0 <= j < i ==> v@[j]@ != path@,
        decreases v@.len() - i,
    {
        if v[i] == target {
            assert(v@[i as int]@ == path@);
            return true;
        }
        i = i + 1;
    }
    false
}

impl View for SnapshotWatchState {
    type V = WatchStateView;

    closed spec fn view(&self) -> WatchStateView {
        WatchStateView {
            watched: path_set(self.watched@),
            last_content: content_map(self.last_content@),
        }
    }
}

impl SnapshotWatchState {
    /// The state is well formed: each path is remembered at most once.
    pub closed spec fn wf(&self) -> bool {
        distinct_paths(self.watched@) && distinct_keys(self.last_content@)
    }

    /// A watcher that watches nothing and has recorded nothing.
    pub fn new() -> (r: Self)
        ensures
            r.wf(),
            r@.watched == Set::<Seq<char>>::empty(),
            r@.last_content == Map::<Seq<char>, Seq<char>>::empty(),
    {
        let r = SnapshotWatchState { watched: Vec::new(), last_content: Vec::new() };
        assert(r@.watched =~= Set::<Seq<char>>::empty());
        assert(r@.last_content =~= Map::<Seq<char>, Seq<char>>::empty());
        r
    }

    fn find_watched(&self, path: &str) -> (r: Option<usize>)
        ensures
            match r {
                Some(i) => i < self.watched@.len() && self.watched@[i as int]@ == path@,
                None => forall|j: int|
                    0 <= j < self.watched@.len() ==> self.watched@[j]@ != path@,
            },
    {
        let target = owned(path);
        let mut i: usize = 0;
        while i < self.watched.len()
            invariant
                i <= self.watched@.len(),
                target@ == path@,
                forall|j: int| 0 <= j < i ==> self.watched@[j]@ != path@,
            decreases self.watched@.len() - i,
        {
            if self.watched[i] == target {
                return Some(i);
            }
            i = i + 1;
        }
        None
    }

    fn find_recorded(&self, path: &str) -> (r: Option<usize>)
        ensures
            match r {
                Some(i) => i < self.last_content@.len() && self.last_content@[i as int].0@
                    == path@,
                None => forall|j: int|
                    0 <= j < self.last_content@.len() ==> self.last_content@[j].0@ != path@,
            },
    {
        let target = owned(path);
        let mut i: usize = 0;
        while i < self.last_content.len()
            invariant
                i <= self.last_content@.len(),
                target@ == path@,
                forall|j: int| 0 <= j < i ==> self.last_content@[j].0@ != path@,
            decreases self.last_content@.len() - i,
        {
            if self.last_content[i].0 == target {
                return Some(i);
            }
            i = i + 1;
        }
        None
    }

    fn is_watched_key(&self, path: &str) -> (r: bool)
        ensures
            r == self@.watched.contains(path@),
    {
        match self.find_watched(path) {
            Some(i) => {
                assert(self@.watched.contains(path@)) by {
                    assert(self.watched@[i as int]@ == path@);
                }
                true
            },
            None => false,
        }
    }

    fn start_watching_key(&mut self, path: &str) -> (inserted: bool)
        requires
            old(self).wf(),
        ensures
            final(self).wf(),
            inserted == !old(self)@.watched.contains(path@),
            final(self)@.watched == old(self)@.watched.insert(path@),
            final(self)@.last_content == old(self)@.last_content,
    {
        match self.find_watched(path) {
            Some(i) => {
                assert(self@.watched.contains(path@)) by {
                    assert(self.watched@[i as int]@ == path@);
                }
                assert(self@.watched.insert(path@) =~= self@.watched);
                false
            },
            None => {
                let ghost before = self.watched@;
                self.watched.push(owned(path));
                assert(path_set(self.watched@) =~= path_set(before).insert(path@)) by {
                    assert forall|p: Seq<char>| path_set(before).insert(path@).contains(p) implies
                        path_set(self.watched@).contains(p) by {
                        if p == path@ {
                            assert(self.watched@[before.len() as int]@ == p);
                        } else {
                            let k = choose|k: int| 0 <= k < before.len() && before[k]@ == p;
                            assert(self.watched@[k]@ == p);
                        }
                    }
                    assert forall|p: Seq<char>| path_set(self.watched@).contains(p) implies
                        path_set(before).insert(path@).contains(p) by {
                        let k = choose|k: int| 0 <= k < self.watched@.len() && self.watched@[k]@ == p;
                        if k < before.len() {
                            assert(before[k]@ == p);
                        }
                    }
                }
                true
            },
        }
    }

    /// Whether `path` is being watched.
    pub fn is_watched(&self, path: &str) -> (r: bool)
        ensures
            r == self@.watched.contains(path_key_of(path@)),
    {
        let key = path_key(path);
        self.is_watched_key(key.as_str())
    }

    /// Marks `path` as watched. Answers whether it was new, that is, whether
    /// the caller should start watching it now.
    pub fn start_watching(&mut self, path: &str) -> (inserted: bool)
        requires
            old(self).wf(),
        ensures
            final(self).wf(),
            inserted == !old(self)@.watched.contains(path_key_of(path@)),
            final(self)@.watched == old(self)@.watched.insert(path_key_of(path@)),
            final(self)@.last_content == old(self)@.last_content,
    {
        let key = path_key(path);
        self.start_watching_key(key.as_str())
    }

    /// Takes note that `path` now holds `content`. Answers whether the content
    /// is new, that is, differs from the last content noted for `path`.
    pub fn note_content(&mut self, path: &str, content: &str) -> (changed: bool)
        requires
            old(self).wf(),
        ensures
            final(self).wf(),
            changed == is_new_content(old(self)@.last_content, path_key_of(path@), content@),
            final(self)@.last_content == old(self)@.last_content.insert(
                path_key_of(path@),
                content@,
            ),
            final(self)@.watched == old(self)@.watched,
    {
        let key = path_key(path);
        self.note_content_key(key.as_str(), content)
    }

    /// The paths a refresh must start watching: of the listed files, those
    /// whose path is not watched yet, each path once, in the order listed. A
    /// path already watched is not watched again.
    pub fn plan_refresh(&self, files: &Vec<FileEntity>) -> (plan: Vec<String>)
        requires
            self.wf(),
        ensures
            distinct_path_keys(plan@),
            key_set(plan@) == listed_keys(files@).difference(self@.watched),
            exists|at: Seq<int>| in_listing_order(plan@, files@, at),
    {
        let mut plan: Vec<String> = Vec::new();
        let mut plan_keys: Vec<String> = Vec::new();
        let ghost mut at: Seq<int> = Seq::empty();
        let mut j: usize = 0;
        assert(path_set(plan_keys@) =~= listed_keys_upto(files@, 0).difference(self@.watched));
        while j < files.len()
            invariant
                j <= files@.len(),
                plan@.len() == plan_keys@.len(),
                forall|i: int| 0 <= i < plan@.len() ==> #[trigger] plan_keys@[i]@ == path_key_of(
                    plan@[i]@,
                ),
                distinct_paths(plan_keys@),
                path_set(plan_keys@) == listed_keys_upto(files@, j as int).difference(
                    self@.watched,
                ),
                in_listing_order(plan@, files@, at),
                forall|i: int| 0 <= i < at.len() ==> #[trigger] at[i] < j,
            decreases files@.len() - j,
        {
            let path = files[j].path.as_str();
            let key = path_key(path);
            let ghost before = plan_keys@;
            assert(listed_keys_upto(files@, j + 1) =~= listed_keys_upto(files@, j as int).insert(
                key@,
            )) by {
                assert forall|p: Seq<char>| #[trigger] listed_keys_upto(files@, j + 1).contains(p)
                    <==> listed_keys_upto(files@, j as int).insert(key@).contains(p) by {
                    if listed_keys_upto(files@, j + 1).contains(p) {
                        let k = choose|k: int| 0 <= k < j + 1 && path_key_of(files@[k].path@) == p;
                        if k < j {
                            assert(listed_keys_upto(files@, j as int).contains(p));
                        }
                    }
                    if listed_keys_upto(files@, j as int).contains(p) {
                        let k = choose|k: int| 0 <= k < j && path_key_of(files@[k].path@) == p;
                        assert(0 <= k < j + 1 && path_key_of(files@[k].path@) == p);
                    }
                    if p == key@ {
                        assert(0 <= j < j + 1 && path_key_of(files@[j as int].path@) == p);
                    }
                }
            }
            if !self.is_watched_key(key.as_str()) && !lists_path(&plan_keys, key.as_str()) {
                let ghost key_text = key@;
                plan.push(owned(path));
                plan_keys.push(key);
                proof {
                    at = at.push(j as int);
                }
                assert(path_set(plan_keys@) =~= path_set(before).insert(key_text)) by {
                    assert forall|p: Seq<char>| #[trigger] path_set(plan_keys@).contains(p)
                        <==> path_set(before).insert(key_text).contains(p) by {
                        if path_set(plan_keys@).contains(p) {
                            let k = choose|k: int| 0 <= k < plan_keys@.len() && plan_keys@[k]@ == p;
                            if k < before.len() {
                                assert(before[k]@ == p);
                            }
                        }
                        if path_set(before).contains(p) {
                            let k = choose|k: int| 0 <= k < before.len() && before[k]@ == p;
                            assert(plan_keys@[k]@ == p);
                        }
                        if p == key_text {
                            assert(plan_keys@[before.len() as int]@ == p);
                        }
                    }
                }
                assert(distinct_paths(plan_keys@)) by {
                    assert forall|a: int, b: int|
                        0 <= a < plan_keys@.len() && 0 <= b < plan_keys@.len() && plan_keys@[a]@
                            == plan_keys@[b]@ implies a == b by {
                        if a < before.len() && b == before.len() {
                            assert(path_set(before).contains(plan_keys@[a]@));
                        } else if b < before.len() && a == before.len() {
                            assert(path_set(before).contains(plan_keys@[b]@));
                        }
                    }
                }
            }
            assert(path_set(plan_keys@) =~= listed_keys_upto(files@, j + 1).difference(
                self@.watched,
            ));
            j = j + 1;
        }
        assert(in_listing_order(plan@, files@, at));
        assert(key_set(plan@) =~= path_set(plan_keys@)) by {
            assert forall|p: Seq<char>| #[trigger] key_set(plan@).contains(p) <==> path_set(
                plan_keys@,
            ).contains(p) by {
                if key_set(plan@).contains(p) {
                    let i = choose|i: int| 0 <= i < plan@.len() && path_key_of(plan@[i]@) == p;
                    assert(plan_keys@[i]@ == p);
                }
                if path_set(plan_keys@).contains(p) {
                    let i = choose|i: int| 0 <= i < plan_keys@.len() && plan_keys@[i]@ == p;
                    assert(plan_keys@[i]@ == path_key_of(plan@[i]@));
                }
            }
        }
        assert(distinct_path_keys(plan@)) by {
            assert forall|a: int, b: int|
                0 <= a < plan@.len() && 0 <= b < plan@.len() && path_key_of(plan@[a]@)
                    == path_key_of(plan@[b]@) implies a == b by {
                assert(plan_keys@[a]@ == path_key_of(plan@[a]@));
                assert(plan_keys@[b]@ == path_key_of(plan@[b]@));
            }
        }
        plan
    }

    /// Takes note of a refresh: `outcomes[i]` tells whether watching
    /// `plan[i]` succeeded. Each path whose watching succeeded is watched from
    /// now on; one whose watching failed is not, and is planned again at the
    /// next refresh.
    pub fn apply_refresh(&mut self, plan: &Vec<String>, outcomes: &Vec<bool>)
        requires
            old(self).wf(),
            plan@.len() == outcomes@.len(),
        ensures
            final(self).wf(),
            final(self)@.watched == old(self)@.watched.union(
                watch_succeeded(plan@, outcomes@, plan@.len() as int),
            ),
            final(self)@.last_content == old(self)@.last_content,
    {
        let ghost start = self@;
        let mut i: usize = 0;
        assert(start.watched.union(watch_succeeded(plan@, outcomes@, 0)) =~= start.watched);
        while i < plan.len()
            invariant
                i <= plan@.len(),
                plan@.len() == outcomes@.len(),
                self.wf(),
                self@.watched == start.watched.union(watch_succeeded(plan@, outcomes@, i as int)),
                self@.last_content == start.last_content,
            decreases plan@.len() - i,
        {
            let ghost before = self@.watched;
            if outcomes[i] {
                self.start_watching(plan[i].as_str());
            }
            assert(self@.watched =~= start.watched.union(watch_succeeded(plan@, outcomes@, i + 1))) by {
                assert forall|p: Seq<char>| #[trigger] watch_succeeded(plan@, outcomes@, i + 1).contains(p)
                    <==> (watch_succeeded(plan@, outcomes@, i as int).contains(p) || (p
                    == path_key_of(plan@[i as int]@) && outcomes@[i as int])) by {
                    if watch_succeeded(plan@, outcomes@, i + 1).contains(p) {
                        let k = choose|k: int|
                            0 <= k < i + 1 && path_key_of(plan@[k]@) == p && outcomes@[k];
                        if k < i {
                            assert(watch_succeeded(plan@, outcomes@, i as int).contains(p));
                        }
                    }
                    if watch_succeeded(plan@, outcomes@, i as int).contains(p) {
                        let k = choose|k: int|
                            0 <= k < i && path_key_of(plan@[k]@) == p && outcomes@[k];
                        assert(0 <= k < i + 1 && path_key_of(plan@[k]@) == p && outcomes@[k]);
                    }
                    if p == path_key_of(plan@[i as int]@) && outcomes@[i as int] {
                        assert(0 <= i < i + 1 && path_key_of(plan@[i as int]@) == p
                            && outcomes@[i as int]);
                    }
                }
            }
            i = i + 1;
        }
    }

    fn note_content_key(&mut self, path: &str, content: &str) -> (changed: bool)
        requires
            old(self).wf(),
        ensures
            final(self).wf(),
            changed == is_new_content(old(self)@.last_content, path@, content@),
            final(self)@.last_content == old(self)@.last_content.insert(path@, content@),
            final(self)@.watched == old(self)@.watched,
    {
        let ghost before = self.last_content@;
        match self.find_recorded(path) {
            Some(i) => {
                proof {
                    assert forall|k: int| 0 <= k < before.len() && before[k].0@ == path@
                        implies k == i by {}
                }
                let same = self.last_content[i].1 == owned(content);
                if same {
                    assert(content_map(before).insert(path@, content@) =~= content_map(before));
                    false
                } else {
                    self.last_content.set(i, (owned(path), owned(content)));
                    assert(self.last_content@ =~= before.update(i as int, self.last_content@[i as int]));
                    assert(content_map(self.last_content@) =~= content_map(before).insert(path@, content@)) by {
                        let after = self.last_content@;
                        assert forall|p: Seq<char>| #[trigger] content_map(after).contains_key(p)
                            <==> content_map(before).insert(path@, content@).contains_key(p) by {
                            if content_map(after).contains_key(p) {
                                let k = choose|k: int| 0 <= k < after.len() && after[k].0@ == p;
                                if k != i {
                                    assert(before[k].0@ == p);
                                }
                            }
                            if content_map(before).contains_key(p) {
                                let k = choose|k: int| 0 <= k < before.len() && before[k].0@ == p;
                                if k != i {
                                    assert(after[k].0@ == p);
                                } else {
                                    assert(after[k].0@ == p);
                                }
                            }
                            if p == path@ {
                                assert(after[i as int].0@ == p);
                            }
                        }
                        assert forall|p: Seq<char>| content_map(after).contains_key(p) implies
                            #[trigger] content_map(after)[p] == content_map(before).insert(
                                path@,
                                content@,
                            )[p] by {
                            let k = choose|k: int| 0 <= k < after.len() && after[k].0@ == p;
                            if p == path@ {
                                assert(after[i as int].0@ == p);
                                assert(k == i);
                            } else {
                                assert(before[k].0@ == p);
                                let m = choose|m: int| 0 <= m < before.len() && before[m].0@ == p;
                                assert(before[m].0@ == before[k].0@);
                            }
                        }
                    }
                    true
                }
            },
            None => {
                self.last_content.push((owned(path), owned(content)));
                assert(content_map(self.last_content@) =~= content_map(before).insert(path@, content@)) by {
                    let after = self.last_content@;
                    let n = before.len() as int;
                    assert(after[n].0@ == path@);
                    assert forall|p: Seq<char>| #[trigger] content_map(after).contains_key(p)
                        <==> content_map(before).insert(path@, content@).contains_key(p) by {
                        if content_map(after).contains_key(p) {
                            let k = choose|k: int| 0 <= k < after.len() && after[k].0@ == p;
                            if k < n {
                                assert(before[k].0@ == p);
                            }
                        }
                        if content_map(before).contains_key(p) {
                            let k = choose|k: int| 0 <= k < before.len() && before[k].0@ == p;
                            assert(after[k].0@ == p);
                        }
                    }
                    assert forall|p: Seq<char>| content_map(after).contains_key(p) implies
                        #[trigger] content_map(after)[p] == content_map(before).insert(
                            path@,
                            content@,
                        )[p] by {
                        let k = choose|k: int| 0 <= k < after.len() && after[k].0@ == p;
                        if p == path@ {
                            assert(k == n);
                        } else {
                            assert(k < n);
                            assert(before[k].0@ == p);
                            let m = choose|m: int| 0 <= m < before.len() && before[m].0@ == p;
                            assert(before[m].0@ == before[k].0@);
                        }
                    }
                }
                true
            },
        }
    }

    /// Whether `content` is new for `path`: it is, unless it equals the last
    /// content remembered for the path.
    pub fn content_is_new(&self, path: &str, content: &str) -> (r: bool)
        requires
            self.wf(),
        ensures
            r == is_new_content(self@.last_content, path_key_of(path@), content@),
    {
        let key = path_key(path);
        match self.find_recorded(key.as_str()) {
            Some(i) => {
                let ghost lc = self.last_content@;
                proof {
                    let k = choose|k: int| 0 <= k < lc.len() && lc[k].0@ == key@;
                    assert(k == i);
                    assert(content_map(lc).contains_key(key@));
                    assert(content_map(lc)[key@] == lc[i as int].1@);
                }
                !(self.last_content[i].1 == owned(content))
            },
            None => {
                assert(!content_map(self.last_content@).contains_key(key@));
                true
            },
        }
    }

    /// Handles the content `content` just read from the watched file `path`,
    /// given the random `bits` and the clock reading `secs`, `nanos` drawn for
    /// it: the content is remembered as the last content of `path`, and when
    /// it is new, the snapshot repository is asked, once, to record for the
    /// file named by `path` the snapshot made from that draw. It is recorded
    /// exactly when the content is new and the reading has an RFC 3339 text;
    /// otherwise the repository is left as it was.
    pub fn record_change_from_draw<S: SnapshotRepository>(
        &mut self,
        path: &str,
        content: &str,
        bits: u128,
        secs: u64,
        nanos: u32,
        snap_repository: &mut S,
    ) -> (recorded: bool)
        requires
            old(self).wf(),
        ensures
            final(self).wf(),
            recorded == (is_new_content(old(self)@.last_content, path_key_of(path@), content@)
                && reading_text(secs, nanos) is Some),
            recorded ==> exists|s: SnapshotEntity|
                #[trigger] S::add_step(*old(snap_repository), *final(snap_repository), path@, s)
                    && is_snapshot_from_draw(s, bits, secs, nanos, content@) && is_fresh_snapshot(
                    s,
                    content@,
                ),
            !recorded ==> *final(snap_repository) == *old(snap_repository),
            final(self)@.last_content == old(self)@.last_content.insert(
                path_key_of(path@),
                content@,
            ),
            final(self)@.watched == old(self)@.watched,
    {
        let changed = self.note_content(path, content);
        if changed {
            add_snapshot_from_draw(path, content, bits, secs, nanos, snap_repository)
        } else {
            false
        }
    }

    /// Handles the content `content` just read from the watched file `path`:
    /// it is remembered as the last content of `path`, and when it is new, the
    /// snapshot repository is asked, once, to record a snapshot of it for the
    /// file named by `path`, made from the bits just drawn from the system's
    /// random source and the reading just taken from the clock
    /// (`record_change_from_draw`). Content equal to the last one remembered
    /// is skipped and leaves the repository as it was. Answers whether a
    /// snapshot was recorded: it is, whatever the content's text, exactly when
    /// the content is new, unless those draws fail to make a snapshot.
    pub fn record_change<S: SnapshotRepository>(
        &mut self,
        path: &str,
        content: &str,
        snap_repository: &mut S,
    ) -> (recorded: bool)
        requires
            old(self).wf(),
        ensures
            final(self).wf(),
            recorded ==> is_new_content(old(self)@.last_content, path_key_of(path@), content@),
            !is_new_content(old(self)@.last_content, path_key_of(path@), content@) ==> !recorded
                && *final(snap_repository) == *old(snap_repository),
            recorded ==> exists|s: SnapshotEntity|
                #[trigger] S::add_step(*old(snap_repository), *final(snap_repository), path@, s)
                    && is_fresh_snapshot(s, content@) && is_drawn_snapshot(s, content@),
            is_new_content(old(self)@.last_content, path_key_of(path@), content@) && !recorded
                ==> snapshot_draw_can_fail(),
            !recorded ==> *final(snap_repository) == *old(snap_repository),
            final(self)@.last_content == old(self)@.last_content.insert(
                path_key_of(path@),
                content@,
            ),
            final(self)@.watched == old(self)@.watched,
    {
        if !self.content_is_new(path, content) {
            self.note_content(path, content);
            return false;
        }
        let drawn = random_bits();
        proof {
            lemma_drawn_from_random_source(drawn);
        }
        let bits = match drawn {
            Some(bits) => bits,
            None => {
                self.note_content(path, content);
                return false;
            },
        };
        let reading = unix_time_now();
        proof {
            lemma_read_from_clock(reading);
        }
        match reading {
            Some((secs, nanos)) => self.record_change_from_draw(
                path,
                content,
                bits,
                secs,
                nanos,
                snap_repository,
            ),
            None => {
                self.note_content(path, content);
                false
            },
        }
    }
}

} // verus!
