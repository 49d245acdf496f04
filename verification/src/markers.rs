//! Reservations of upstream usage attempts whose release had to be
//! abandoned, remembered per database so a later run can release them; and
//! the marker file that keeps them across restarts.

use vstd::prelude::*;
use crate::lines::{
    is_marker_safe, lemma_marker_file_round_trip, marker_ids, marker_text, parse_marker_ids, render_marker_ids,
};
use crate::text::str_eq;

verus! {

/// A remembered attempt: the database path and the reservation id.
pub type AttemptView = (Seq<char>, Seq<char>);

/// The reservation ids remembered for `path`.
pub open spec fn attempts_for(s: Set<AttemptView>, path: Seq<char>) -> Set<Seq<char>> {
    Set::new(|id: Seq<char>| s.contains((path, id)))
}

/// `s` without the attempts of `path` whose id is in `ids`.
pub open spec fn without_attempts(s: Set<AttemptView>, path: Seq<char>, ids: Set<Seq<char>>) -> Set<AttemptView> {
    s.filter(|e: AttemptView| !(e.0 == path && ids.contains(e.1)))
}

/// `s` with every id listed in the marker file `contents` remembered for
/// `path`.
pub open spec fn with_marker_file(s: Set<AttemptView>, path: Seq<char>, contents: Seq<char>) -> Set<AttemptView> {
    s.union(Set::new(|e: AttemptView| e.0 == path && marker_ids(contents).contains(e.1)))
}

/// The views of a list of strings.
pub open spec fn string_views(v: Seq<String>) -> Seq<Seq<char>> {
    v.map_values(|s: String| s@)
}

/// The views of a list of stored attempts.
pub open spec fn pair_views(v: Seq<(String, String)>) -> Seq<AttemptView> {
    v.map_values(|e: (String, String)| (e.0@, e.1@))
}

/// Whether an attempt goes when the attempts of `path` are dropped: all of
/// them when `all_of_path`, else those whose id is listed in `ids`.
pub open spec fn attempt_dropped(e: AttemptView, path: Seq<char>, ids: Seq<Seq<char>>, all_of_path: bool) -> bool {
    if all_of_path {
        e.0 == path
    } else {
        e.0 == path && ids.contains(e.1)
    }
}

/// The set of remembered abandoned attempts.
pub struct AbandonedUsageAttempts {
    entries: Vec<(String, String)>,
}

impl AbandonedUsageAttempts {
    /// The remembered attempts in storage order.
    pub closed spec fn entry_seq(&self) -> Seq<AttemptView> {
        pair_views(self.entries@)
    }

    /// No attempt is stored twice.
    #[verifier::type_invariant]
    closed spec fn entries_are_distinct(&self) -> bool {
        self.entry_seq().no_duplicates()
    }
}

impl View for AbandonedUsageAttempts {
    type V = Set<AttemptView>;

    closed spec fn view(&self) -> Set<AttemptView> {
        self.entry_seq().to_set()
    }
}

broadcast use vstd::seq_lib::lemma_seq_contains_after_push;

impl AbandonedUsageAttempts {
    /// An empty set.
    pub fn new() -> (r: Self)
        ensures
            r@ == Set::<AttemptView>::empty(),
    {
        let r = AbandonedUsageAttempts { entries: Vec::new() };
        proof {
            assert(r@ =~= Set::<AttemptView>::empty());
        }
        r
    }

    /// Whether `(path, id)` is remembered.
    pub fn contains(&self, path: &str, id: &str) -> (r: bool)
        ensures
            r == self@.contains((path@, id@)),
    {
        let mut i: usize = 0;
        while i < self.entries.len()
            invariant
                i <= self.entries@.len(),
                !self.entry_seq().subrange(0, i as int).contains((path@, id@)),
            decreases self.entries@.len() - i,
        {
            proof {
                assert(self.entry_seq().subrange(0, i + 1) =~= self.entry_seq().subrange(0, i as int).push(self.entry_seq()[i as int]));
            }
            if str_eq(self.entries[i].0.as_str(), path) && str_eq(self.entries[i].1.as_str(), id) {
                proof {
                    assert(self.entry_seq()[i as int] == (path@, id@));
                }
                return true;
            }
            i = i + 1;
        }
        proof {
            assert(self.entry_seq().subrange(0, i as int) =~= self.entry_seq());
        }
        false
    }

    /// Remembers `(path, id)`; the result tells whether it was new.
    pub fn insert(&mut self, path: String, id: String) -> (r: bool)
        ensures
            final(self)@ == old(self)@.insert((path@, id@)),
            r == !old(self)@.contains((path@, id@)),
    {
        proof {
            use_type_invariant(&*self);
        }
        if self.contains(path.as_str(), id.as_str()) {
            proof {
                assert(self@.insert((path@, id@)) =~= self@);
            }
            return false;
        }
        let ghost before = self.entry_seq();
        let ghost pv = path@;
        let ghost iv = id@;
        let mut entries = Vec::new();
        std::mem::swap(&mut entries, &mut self.entries);
        entries.push((path, id));
        proof {
            let after = pair_views(entries@);
            assert(after =~= before.push((pv, iv)));
            assert(!before.contains((pv, iv)));
            assert(after.no_duplicates()) by {
                assert forall|a: int, b: int| 0 <= a < after.len() && 0 <= b < after.len() && a != b
                    implies after[a] != after[b] by {
                    if a == before.len() {
                        assert(before[b] == after[b]);
                    } else if b == before.len() {
                        assert(before[a] == after[a]);
                    } else {
                        assert(before[a] == after[a] && before[b] == after[b]);
                    }
                }
            }
            before.lemma_push_to_set_commute((pv, iv));
        }
        self.entries = entries;
        true
    }

    /// The reservation ids remembered for `path`, each once.
    pub fn ids_for(&self, path: &str) -> (ids: Vec<String>)
        ensures
            string_views(ids@).no_duplicates(),
            string_views(ids@).to_set() == attempts_for(self@, path@),
    {
        proof {
            use_type_invariant(self);
        }
        let mut ids: Vec<String> = Vec::new();
        let mut i: usize = 0;
        while i < self.entries.len()
            invariant
                i <= self.entries@.len(),
                self.entry_seq().no_duplicates(),
                string_views(ids@).no_duplicates(),
                forall|id: Seq<char>| #[trigger] string_views(ids@).contains(id) <==>
                    self.entry_seq().subrange(0, i as int).contains((path@, id)),
            decreases self.entries@.len() - i,
        {
            let ghost before = string_views(ids@);
            let ghost cur = self.entry_seq()[i as int];
            proof {
                assert(self.entry_seq().subrange(0, i + 1) =~= self.entry_seq().subrange(0, i as int).push(cur));
            }
            if str_eq(self.entries[i].0.as_str(), path) {
                let id = self.entries[i].1.clone();
                ids.push(id);
                proof {
                    assert(string_views(ids@) =~= before.push(cur.1));
                    assert(!before.contains(cur.1)) by {
                        if before.contains(cur.1) {
                            assert(self.entry_seq().subrange(0, i as int).contains(cur));
                            let k = choose|k: int| 0 <= k < i && self.entry_seq().subrange(0, i as int)[k] == cur;
                            assert(self.entry_seq()[k] == self.entry_seq()[i as int]);
                        }
                    }
                    assert(string_views(ids@).no_duplicates()) by {
                        let after = string_views(ids@);
                        assert forall|a: int, b: int| 0 <= a < after.len() && 0 <= b < after.len() && a != b
                            implies after[a] != after[b] by {
                            if a == before.len() {
                                assert(before[b] == after[b]);
                            } else if b == before.len() {
                                assert(before[a] == after[a]);
                            } else {
                                assert(before[a] == after[a] && before[b] == after[b]);
                            }
                        }
                    }
                }
            } else {
                proof {
                    assert(string_views(ids@) == before);
                }
            }
            i = i + 1;
        }
        proof {
            assert(self.entry_seq().subrange(0, i as int) =~= self.entry_seq());
            assert(string_views(ids@).to_set() =~= attempts_for(self@, path@));
        }
        ids
    }

    /// Keeps the attempts that are not dropped: every attempt of `path` when
    /// `drop_all_of_path`, else those of `path` whose id is in `ids`.
    fn retain_attempts(&mut self, path: &str, ids: &Vec<String>, drop_all_of_path: bool)
        ensures
            final(self)@ == (if drop_all_of_path {
                old(self)@.filter(|e: AttemptView| e.0 != path@)
            } else {
                without_attempts(old(self)@, path@, string_views(ids@).to_set())
            }),
    {
        proof {
            use_type_invariant(&*self);
        }
        let mut kept: Vec<(String, String)> = Vec::new();
        let mut i: usize = 0;
        while i < self.entries.len()
            invariant
                i <= self.entries@.len(),
                self.entry_seq().no_duplicates(),
                pair_views(kept@).no_duplicates(),
                forall|e: AttemptView| #[trigger] pair_views(kept@).contains(e) <==>
                    (!attempt_dropped(e, path@, string_views(ids@), drop_all_of_path) && self.entry_seq().subrange(0, i as int).contains(e)),
            decreases self.entries@.len() - i,
        {
            let ghost before = pair_views(kept@);
            let ghost cur = self.entry_seq()[i as int];
            proof {
                assert(self.entry_seq().subrange(0, i + 1) =~= self.entry_seq().subrange(0, i as int).push(cur));
            }
            proof {
                assert(cur == (self.entries@[i as int].0@, self.entries@[i as int].1@));
            }
            let same_path = str_eq(self.entries[i].0.as_str(), path);
            let mut drop = false;
            if same_path {
                if drop_all_of_path {
                    drop = true;
                } else {
                    let mut j: usize = 0;
                    while j < ids.len()
                        invariant
                            j <= ids@.len(),
                            i < self.entries@.len(),
                            cur == self.entry_seq()[i as int],
                            drop == string_views(ids@).subrange(0, j as int).contains(cur.1),
                        decreases ids@.len() - j,
                    {
                        proof {
                            assert(string_views(ids@).subrange(0, j + 1) =~= string_views(ids@).subrange(0, j as int).push(string_views(ids@)[j as int]));
                            assert(string_views(ids@)[j as int] == ids@[j as int]@);
                        }
                        if str_eq(self.entries[i].1.as_str(), ids[j].as_str()) {
                            drop = true;
                        }
                        j = j + 1;
                    }
                    proof {
                        assert(string_views(ids@).subrange(0, j as int) =~= string_views(ids@));
                    }
                }
            }
            proof {
                if !same_path {
                    assert(cur.0 != path@);
                    assert(!attempt_dropped(cur, path@, string_views(ids@), drop_all_of_path));
                } else if drop_all_of_path {
                    assert(attempt_dropped(cur, path@, string_views(ids@), drop_all_of_path));
                } else {
                    assert(drop == string_views(ids@).contains(cur.1));
                }
                assert(drop == attempt_dropped(cur, path@, string_views(ids@), drop_all_of_path));
            }
            if !drop {
                let entry = (self.entries[i].0.clone(), self.entries[i].1.clone());
                kept.push(entry);
                proof {
                    let after = pair_views(kept@);
                    assert(after =~= before.push(cur));
                    assert(!before.contains(cur)) by {
                        if before.contains(cur) {
                            assert(self.entry_seq().subrange(0, i as int).contains(cur));
                            let k = choose|k: int| 0 <= k < i && self.entry_seq().subrange(0, i as int)[k] == cur;
                            assert(self.entry_seq()[k] == self.entry_seq()[i as int]);
                        }
                    }
                    assert forall|a: int, b: int| 0 <= a < after.len() && 0 <= b < after.len() && a != b
                        implies after[a] != after[b] by {
                        if a == before.len() {
                            assert(before[b] == after[b]);
                        } else if b == before.len() {
                            assert(before[a] == after[a]);
                        } else {
                            assert(before[a] == after[a] && before[b] == after[b]);
                        }
                    }
                }
            } else {
                proof {
                    assert(pair_views(kept@) == before);
                }
            }
            i = i + 1;
        }
        let ghost old_view = self@;
        let ghost old_seq = self.entry_seq();
        proof {
            assert(old_seq.subrange(0, i as int) =~= old_seq);
        }
        self.entries = kept;
        proof {
            let target = if drop_all_of_path {
                old_view.filter(|e: AttemptView| e.0 != path@)
            } else {
                without_attempts(old_view, path@, string_views(ids@).to_set())
            };
            assert(self@ =~= target);
        }
    }

    /// Forgets the attempts of `path` whose id is in `ids`.
    pub fn forget(&mut self, path: &str, ids: &Vec<String>)
        ensures
            final(self)@ == without_attempts(old(self)@, path@, string_views(ids@).to_set()),
    {
        self.retain_attempts(path, ids, false);
    }

    /// Forgets every attempt of `path`.
    pub fn forget_path(&mut self, path: &str)
        ensures
            final(self)@ == old(self)@.filter(|e: AttemptView| e.0 != path@),
    {
        let none: Vec<String> = Vec::new();
        self.retain_attempts(path, &none, true);
    }

    /// Remembers, for `path`, every id listed in the marker file `contents`.
    pub fn merge_marker_file(&mut self, path: &str, contents: &str)
        ensures
            final(self)@ == with_marker_file(old(self)@, path@, contents@),
    {
        let ids = parse_marker_ids(contents);
        let ghost listed = string_views(ids@);
        let mut i: usize = 0;
        while i < ids.len()
            invariant
                i <= ids@.len(),
                listed == string_views(ids@),
                listed == marker_ids(contents@),
                self@ == old(self)@.union(Set::new(|e: AttemptView| e.0 == path@ && listed.subrange(0, i as int).contains(e.1))),
            decreases ids@.len() - i,
        {
            let p = path.to_owned();
            let id = ids[i].clone();
            self.insert(p, id);
            proof {
                assert(listed[i as int] == ids@[i as int]@);
                assert(listed.subrange(0, i + 1) =~= listed.subrange(0, i as int).push(listed[i as int]));
                assert(self@ =~= old(self)@.union(Set::new(|e: AttemptView| e.0 == path@ && listed.subrange(0, i + 1).contains(e.1))));
            }
            i = i + 1;
        }
        proof {
            assert(listed.subrange(0, ids@.len() as int) =~= listed);
            assert(self@ =~= with_marker_file(old(self)@, path@, contents@));
        }
    }
}

/// What must happen to a database's marker file after a change.
#[derive(Debug)]
pub enum MarkerFileUpdate {
    /// The file stays as it is.
    Unchanged,
    /// No attempt remains for the database: the file goes.
    Remove,
    /// The file is replaced by this text.
    Replace(String),
}

/// `update` is what the marker file of `path` must become for the attempts
/// in `s`: removed when none is left, else one line per remembered id.
pub open spec fn is_marker_file_for(update: MarkerFileUpdate, s: Set<AttemptView>, path: Seq<char>) -> bool {
    match update {
        MarkerFileUpdate::Unchanged => false,
        MarkerFileUpdate::Remove => attempts_for(s, path) == Set::<Seq<char>>::empty(),
        MarkerFileUpdate::Replace(text) => exists|ids: Seq<Seq<char>>| {
            &&& ids.len() > 0
            &&& ids.no_duplicates()
            &&& #[trigger] ids.to_set() == attempts_for(s, path)
            &&& text@ == marker_text(ids)
        },
    }
}

/// The marker file path of a database: its path with
/// `.abandoned-upstream-usage` appended.
pub fn abandoned_upstream_usage_marker_path(database_path: &str) -> (path: String)
    ensures
        path@ == database_path@ + ".abandoned-upstream-usage"@,
{
    let mut path = database_path.to_owned();
    path.append(".abandoned-upstream-usage");
    path
}

/// The marker file of `database_path` for the attempts now remembered.
pub fn marker_file_update(attempts: &AbandonedUsageAttempts, database_path: &str) -> (r: MarkerFileUpdate)
    ensures
        is_marker_file_for(r, attempts@, database_path@),
{
    let ids = attempts.ids_for(database_path);
    if ids.len() == 0 {
        proof {
            assert(string_views(ids@) =~= Seq::<Seq<char>>::empty());
            assert(attempts_for(attempts@, database_path@) =~= Set::<Seq<char>>::empty());
        }
        MarkerFileUpdate::Remove
    } else {
        let text = render_marker_ids(&ids);
        proof {
            assert(string_views(ids@).len() > 0);
        }
        MarkerFileUpdate::Replace(text)
    }
}

/// Remembers an abandoned reservation of `database_path`, after taking in
/// the ids its marker file lists (`persisted`). The marker file is rewritten
/// only when the reservation was not remembered yet.
pub fn remember_abandoned_upstream_usage_attempt(
    attempts: &mut AbandonedUsageAttempts,
    persisted: &str,
    database_path: String,
    reservation_id: String,
) -> (r: MarkerFileUpdate)
    ensures
        final(attempts)@ == with_marker_file(old(attempts)@, database_path@, persisted@).insert(
            (database_path@, reservation_id@),
        ),
        with_marker_file(old(attempts)@, database_path@, persisted@).contains((database_path@, reservation_id@))
            ==> r is Unchanged,
        !with_marker_file(old(attempts)@, database_path@, persisted@).contains((database_path@, reservation_id@))
            ==> is_marker_file_for(r, final(attempts)@, database_path@),
{
    attempts.merge_marker_file(database_path.as_str(), persisted);
    let path_copy = database_path.clone();
    if attempts.insert(database_path, reservation_id) {
        marker_file_update(attempts, path_copy.as_str())
    } else {
        MarkerFileUpdate::Unchanged
    }
}

/// The abandoned reservations of `database_path`, after taking in its
/// marker file (`persisted`).
pub fn peek_abandoned_upstream_usage_attempts(
    attempts: &mut AbandonedUsageAttempts,
    persisted: &str,
    database_path: &str,
) -> (ids: Vec<String>)
    ensures
        final(attempts)@ == with_marker_file(old(attempts)@, database_path@, persisted@),
        string_views(ids@).no_duplicates(),
        string_views(ids@).to_set() == attempts_for(final(attempts)@, database_path@),
{
    attempts.merge_marker_file(database_path, persisted);
    attempts.ids_for(database_path)
}

/// Forgets the given reservations of `database_path`, after taking in its
/// marker file (`persisted`); nothing happens for an empty list.
pub fn forget_abandoned_upstream_usage_attempts(
    attempts: &mut AbandonedUsageAttempts,
    persisted: &str,
    database_path: &str,
    reservation_ids: &Vec<String>,
) -> (r: MarkerFileUpdate)
    ensures
        reservation_ids@.len() == 0 ==> final(attempts)@ == old(attempts)@ && r is Unchanged,
        reservation_ids@.len() > 0 ==> final(attempts)@ == without_attempts(
            with_marker_file(old(attempts)@, database_path@, persisted@),
            database_path@,
            string_views(reservation_ids@).to_set(),
        ) && is_marker_file_for(r, final(attempts)@, database_path@),
{
    if reservation_ids.len() == 0 {
        return MarkerFileUpdate::Unchanged;
    }
    attempts.merge_marker_file(database_path, persisted);
    attempts.forget(database_path, reservation_ids);
    marker_file_update(attempts, database_path)
}

/// Takes every abandoned reservation of `database_path`: the ids remembered
/// (marker file `persisted` included) are returned and forgotten.
pub fn take_abandoned_upstream_usage_attempts(
    attempts: &mut AbandonedUsageAttempts,
    persisted: &str,
    database_path: &str,
) -> (r: (Vec<String>, MarkerFileUpdate))
    ensures
        string_views(r.0@).to_set() == attempts_for(with_marker_file(old(attempts)@, database_path@, persisted@), database_path@),
        attempts_for(final(attempts)@, database_path@) == Set::<Seq<char>>::empty(),
        forall|q: Seq<char>| q != database_path@ ==> attempts_for(final(attempts)@, q)
            == #[trigger] attempts_for(with_marker_file(old(attempts)@, database_path@, persisted@), q),
{
    let ids = peek_abandoned_upstream_usage_attempts(attempts, persisted, database_path);
    let ghost merged = attempts@;
    let update = forget_abandoned_upstream_usage_attempts(attempts, persisted, database_path, &ids);
    proof {
        lemma_merging_twice(merged, database_path@, persisted@);
        assert(attempts_for(attempts@, database_path@) =~= Set::<Seq<char>>::empty());
        assert forall|q: Seq<char>| q != database_path@ implies attempts_for(attempts@, q)
            == #[trigger] attempts_for(merged, q) by {
            assert(attempts_for(attempts@, q) =~= attempts_for(merged, q));
        }
    }
    (ids, update)
}

/// Forgets, in memory only, every abandoned reservation of `database_path`.
pub fn clear_abandoned_upstream_usage_attempt_memory_for_test(
    attempts: &mut AbandonedUsageAttempts,
    database_path: &str,
)
    ensures
        final(attempts)@ == old(attempts)@.filter(|e: AttemptView| e.0 != database_path@),
{
    attempts.forget_path(database_path);
}

proof fn lemma_merging_twice(s: Set<AttemptView>, path: Seq<char>, contents: Seq<char>)
    ensures
        with_marker_file(with_marker_file(s, path, contents), path, contents)
            == with_marker_file(s, path, contents),
{
    assert(with_marker_file(with_marker_file(s, path, contents), path, contents)
        =~= with_marker_file(s, path, contents));
}

/// A remembered reservation is among those listed for its database.
pub proof fn lemma_remembered_attempt_is_listed(s: Set<AttemptView>, path: Seq<char>, id: Seq<char>)
    ensures
        attempts_for(s.insert((path, id)), path).contains(id),
{
}

/// Forgetting some reservations of one database removes exactly those, and
/// leaves every other database's reservations as they were.
pub proof fn lemma_forget_touches_only_named(
    s: Set<AttemptView>,
    path: Seq<char>,
    ids: Set<Seq<char>>,
    other: Seq<char>,
)
    ensures
        attempts_for(without_attempts(s, path, ids), path) == attempts_for(s, path).difference(ids),
        other != path ==> attempts_for(without_attempts(s, path, ids), other) == attempts_for(s, other),
{
    assert(attempts_for(without_attempts(s, path, ids), path) =~= attempts_for(s, path).difference(ids));
    if other != path {
        assert(attempts_for(without_attempts(s, path, ids), other) =~= attempts_for(s, other));
    }
}

/// A marker file written for a set of reservations lists exactly those
/// reservations when it is read back, for ids that a line holds as written.
pub proof fn lemma_written_marker_file_reads_back(ids: Seq<Seq<char>>, path: Seq<char>)
    requires
        forall|i: int| 0 <= i < ids.len() ==> is_marker_safe(#[trigger] ids[i]),
    ensures
        attempts_for(with_marker_file(Set::<AttemptView>::empty(), path, marker_text(ids)), path) == ids.to_set(),
{
    lemma_marker_file_round_trip(ids);
    assert(attempts_for(with_marker_file(Set::<AttemptView>::empty(), path, marker_text(ids)), path) =~= ids.to_set());
}

/// What the marker file of `path` holds after an update, when it held
/// `before`: the new text for a replacement, nothing for a removal, else
/// what it held.
pub open spec fn marker_file_after(update: MarkerFileUpdate, before: Seq<char>) -> Seq<char> {
    match update {
        MarkerFileUpdate::Unchanged => before,
        MarkerFileUpdate::Remove => Seq::empty(),
        MarkerFileUpdate::Replace(text) => text@,
    }
}

/// Remembering a reservation a second time, with the marker file as the
/// first call left it, changes nothing: the memory stays as the first call
/// left it, and the reservation is already remembered, so the file is left
/// unchanged. Where the first call rewrote the file, this needs the
/// database's ids to be ones a marker line holds as written.
pub proof fn lemma_remembering_twice_changes_nothing(
    s: Set<AttemptView>,
    path: Seq<char>,
    persisted: Seq<char>,
    id: Seq<char>,
    first: MarkerFileUpdate,
)
    requires
        with_marker_file(s, path, persisted).contains((path, id)) ==> first is Unchanged,
        !with_marker_file(s, path, persisted).contains((path, id))
            ==> is_marker_file_for(first, with_marker_file(s, path, persisted).insert((path, id)), path),
        forall|x: Seq<char>| #[trigger] attempts_for(with_marker_file(s, path, persisted).insert((path, id)), path).contains(x)
            ==> is_marker_safe(x),
    ensures
        ({
            let remembered = with_marker_file(s, path, persisted).insert((path, id));
            let file = marker_file_after(first, persisted);
            &&& with_marker_file(remembered, path, file).contains((path, id))
            &&& with_marker_file(remembered, path, file).insert((path, id)) == remembered
        }),
{
    let remembered = with_marker_file(s, path, persisted).insert((path, id));
    let file = marker_file_after(first, persisted);
    match first {
        MarkerFileUpdate::Unchanged => {
            assert(with_marker_file(remembered, path, file) =~= remembered);
        },
        MarkerFileUpdate::Remove => {
            assert(attempts_for(remembered, path).contains(id));
        },
        MarkerFileUpdate::Replace(text) => {
            let ids = choose|ids: Seq<Seq<char>>| {
                &&& ids.len() > 0
                &&& ids.no_duplicates()
                &&& #[trigger] ids.to_set() == attempts_for(remembered, path)
                &&& text@ == marker_text(ids)
            };
            assert forall|i: int| 0 <= i < ids.len() implies is_marker_safe(#[trigger] ids[i]) by {
                assert(ids.to_set().contains(ids[i]));
                assert(attempts_for(remembered, path).contains(ids[i]));
            }
            lemma_marker_file_round_trip(ids);
            assert forall|e: AttemptView| e.0 == path && marker_ids(file).contains(e.1) implies remembered.contains(e) by {
                assert(ids.to_set().contains(e.1));
            }
            assert(with_marker_file(remembered, path, file) =~= remembered);
        },
    }
    assert(remembered.insert((path, id)) =~= remembered);
}

} // verus!
