//! Bookkeeping of a scope profiler: the counter readings at the start and the
//! end of a run, and a time for each labelled scope.
//!
//! The profiler does not read a counter itself. Every operation takes the
//! reading that it records, so the bookkeeping is a function of the readings.

use vstd::prelude::*;

verus! {

/// Start and end of a run, and a map from the labels of scopes to times,
/// kept as a list in the order in which the scopes were first entered. A
/// scope holds the counter reading at its start while it is open, and the
/// time it took once it is closed.
pub struct SimpleProfiler {
    /// Counter reading at the start of the run.
    pub start_tsc: u64,
    /// Counter reading at the end of the run.
    pub end_tsc: u64,
    /// A time for each label.
    pub scopes: Vec<(&'static str, u64)>,
}

/// An open scope, known by its label.
pub struct ScopeGuard(&'static str);

/// Whether some scope has the label.
pub open spec fn has_label(scopes: Seq<(&'static str, u64)>, label: Seq<char>) -> bool {
    exists|i: int| 0 <= i < scopes.len() && (#[trigger] scopes[i]).0@ == label
}

/// The place of a scope with the label, where there is one.
pub open spec fn place_of(scopes: Seq<(&'static str, u64)>, label: Seq<char>) -> int {
    choose|i: int| 0 <= i < scopes.len() && (#[trigger] scopes[i]).0@ == label
}

/// The time held under the label, where there is one.
pub open spec fn time_of(scopes: Seq<(&'static str, u64)>, label: Seq<char>) -> u64 {
    scopes[place_of(scopes, label)].1
}

/// The scopes with the time under the label replaced. Without a scope of
/// that label nothing changes.
pub open spec fn with_time(scopes: Seq<(&'static str, u64)>, label: Seq<char>, time: u64) -> Seq<
    (&'static str, u64),
> {
    Seq::new(
        scopes.len(),
        |i: int|
            if scopes[i].0@ == label {
                (scopes[i].0, time)
            } else {
                scopes[i]
            },
    )
}

/// No label occurs twice.
pub open spec fn labels_distinct(scopes: Seq<(&'static str, u64)>) -> bool {
    forall|i: int, j: int|
        0 <= i < j < scopes.len() ==> (#[trigger] scopes[i]).0@ != (#[trigger] scopes[j]).0@
}

/// Replacing a time keeps the labels, so it keeps them distinct, and the new
/// time is the one then found under the label.
pub proof fn lemma_with_time(scopes: Seq<(&'static str, u64)>, label: Seq<char>, time: u64)
    requires
        labels_distinct(scopes),
    ensures
        labels_distinct(with_time(scopes, label, time)),
        has_label(with_time(scopes, label, time), label) == has_label(scopes, label),
        has_label(scopes, label) ==> time_of(with_time(scopes, label, time), label) == time,
{
    let updated = with_time(scopes, label, time);
    assert forall|i: int| 0 <= i < scopes.len() implies (#[trigger] updated[i]).0@
        == scopes[i].0@ by {}
    if has_label(scopes, label) {
        let i = place_of(scopes, label);
        assert(updated[i].0@ == label);
        let j = place_of(updated, label);
        assert(updated[j].0@ == label);
    }
    if has_label(updated, label) {
        let j = place_of(updated, label);
        assert(scopes[j].0@ == label);
    }
}

/// The scopes as a map from label to time.
pub open spec fn scope_times(scopes: Seq<(&'static str, u64)>) -> Map<Seq<char>, u64> {
    Map::new(|label: Seq<char>| has_label(scopes, label), |label: Seq<char>| time_of(scopes, label))
}

/// As a map, replacing the time under a label that is there is an insertion,
/// and under one that is not changes nothing.
pub proof fn lemma_with_time_inserts(scopes: Seq<(&'static str, u64)>, label: Seq<char>, time: u64)
    requires
        labels_distinct(scopes),
    ensures
        has_label(scopes, label) ==> scope_times(with_time(scopes, label, time)) == scope_times(
            scopes,
        ).insert(label, time),
        !has_label(scopes, label) ==> with_time(scopes, label, time) == scopes,
{
    let updated = with_time(scopes, label, time);
    if has_label(scopes, label) {
        lemma_with_time(scopes, label, time);
        assert forall|other: Seq<char>| has_label(updated, other) == has_label(
            scopes,
            other,
        ) by {
            if has_label(scopes, other) {
                let i = place_of(scopes, other);
                assert(updated[i].0@ == other);
            }
            if has_label(updated, other) {
                let i = place_of(updated, other);
                assert(scopes[i].0@ == other);
            }
        }
        assert forall|other: Seq<char>| other != label && has_label(scopes, other) implies time_of(
            updated,
            other,
        ) == time_of(scopes, other) by {
            let i = place_of(scopes, other);
            let j = place_of(updated, other);
            assert(updated[i].0@ == other);
            assert(scopes[j].0@ == other);
            assert(i == j);
        }
        assert(scope_times(updated) =~= scope_times(scopes).insert(label, time));
    } else {
        assert forall|i: int| 0 <= i < scopes.len() implies updated[i] == scopes[i] by {
            assert(scopes[i].0@ != label);
        }
        assert(updated =~= scopes);
    }
}

/// As a map, a scope added under a new label is an insertion, and the labels
/// stay distinct.
pub proof fn lemma_push_inserts(scopes: Seq<(&'static str, u64)>, label: &'static str, time: u64)
    requires
        labels_distinct(scopes),
        !has_label(scopes, label@),
    ensures
        labels_distinct(scopes.push((label, time))),
        scope_times(scopes.push((label, time))) == scope_times(scopes).insert(label@, time),
{
    let extended = scopes.push((label, time));
    let last = scopes.len() as int;
    assert(extended[last].0@ == label@);
    assert forall|i: int, j: int| 0 <= i < j < extended.len() implies (#[trigger] extended[i]).0@
        != (#[trigger] extended[j]).0@ by {
        if j == last {
            assert(scopes[i].0@ != label@);
        } else {
            assert(extended[i] == scopes[i] && extended[j] == scopes[j]);
        }
    }
    assert forall|other: Seq<char>| has_label(extended, other) == (other == label@ || has_label(
        scopes,
        other,
    )) by {
        if has_label(scopes, other) {
            let i = place_of(scopes, other);
            assert(extended[i].0@ == other);
        }
        if has_label(extended, other) {
            let i = place_of(extended, other);
            if i < last {
                assert(scopes[i].0@ == other);
            }
        }
    }
    assert forall|other: Seq<char>| has_label(scopes, other) implies time_of(extended, other)
        == time_of(scopes, other) by {
        let i = place_of(scopes, other);
        let j = place_of(extended, other);
        assert(extended[i].0@ == other);
        assert(extended[j].0@ == other);
        assert(i == j);
    }
    assert(time_of(extended, label@) == time) by {
        let j = place_of(extended, label@);
        assert(extended[j].0@ == label@);
        assert(j == last);
    }
    assert(scope_times(extended) =~= scope_times(scopes).insert(label@, time));
}

/// Whether two labels are the same text.
fn same_label(a: &str, b: &str) -> (same: bool)
    ensures
        same == (a@ == b@),
{
    let a = a.to_owned();
    let b = b.to_owned();
    a == b
}

impl SimpleProfiler {
    /// No label occurs twice among the scopes.
    pub open spec fn wf(&self) -> bool {
        labels_distinct(self.scopes@)
    }

    /// The time held under each label.
    pub open spec fn times(&self) -> Map<Seq<char>, u64> {
        scope_times(self.scopes@)
    }

    /// A profiler with no scope, whose run neither started nor ended.
    pub fn new() -> (p: Self)
        ensures
            p.start_tsc == 0,
            p.end_tsc == 0,
            p.scopes@ == Seq::<(&'static str, u64)>::empty(),
            p.wf(),
    {
        SimpleProfiler { start_tsc: 0, end_tsc: 0, scopes: Vec::new() }
    }

    /// Records the counter reading at the start of the run.
    pub fn start(&mut self, now: u64)
        ensures
            final(self).start_tsc == now,
            final(self).end_tsc == old(self).end_tsc,
            final(self).scopes == old(self).scopes,
    {
        self.start_tsc = now;
    }

    /// Records the counter reading at the end of the run.
    pub fn end(&mut self, now: u64)
        ensures
            final(self).end_tsc == now,
            final(self).start_tsc == old(self).start_tsc,
            final(self).scopes == old(self).scopes,
    {
        self.end_tsc = now;
    }

    /// Finds the place of the scope with the label.
    pub fn find(&self, label: &str) -> (place: Option<usize>)
        ensures
            place is Some == has_label(self.scopes@, label@),
            place matches Some(i) ==> i < self.scopes@.len() && self.scopes@[i as int].0@ == label@,
            self.wf() && place is Some ==> place == Some(place_of(self.scopes@, label@) as usize),
    {
        let mut i: usize = 0;
        while i < self.scopes.len()
            invariant
                i <= self.scopes@.len(),
                forall|j: int| 0 <= j < i ==> (#[trigger] self.scopes@[j]).0@ != label@,
            decreases self.scopes@.len() - i,
        {
            if same_label(self.scopes[i].0, label) {
                return Some(i);
            }
            i = i + 1;
        }
        None
    }

    /// The time held under the label, if there is a scope of that label.
    pub fn scope_time(&self, label: &str) -> (time: Option<u64>)
        requires
            self.wf(),
        ensures
            time == if has_label(self.scopes@, label@) {
                Some(time_of(self.scopes@, label@))
            } else {
                None::<u64>
            },
    {
        match self.find(label) {
            None => None,
            Some(i) => Some(self.scopes[i].1),
        }
    }

    /// Replaces the time under the label. Without a scope of that label
    /// nothing changes.
    pub fn update_scope_time(&mut self, label: &'static str, new_time: u64)
        requires
            old(self).wf(),
        ensures
            final(self).scopes@ == with_time(old(self).scopes@, label@, new_time),
            final(self).times() == if old(self).times().dom().contains(label@) {
                old(self).times().insert(label@, new_time)
            } else {
                old(self).times()
            },
            final(self).start_tsc == old(self).start_tsc,
            final(self).end_tsc == old(self).end_tsc,
            final(self).wf(),
    {
        proof {
            lemma_with_time(self.scopes@, label@, new_time);
            lemma_with_time_inserts(self.scopes@, label@, new_time);
        }
        if let Some(i) = self.find(label) {
            let entry = self.scopes[i];
            self.scopes.set(i, (entry.0, new_time));
        }
        assert(self.scopes@ =~= with_time(old(self).scopes@, label@, new_time));
    }

    /// The length of the run: the end reading less the start reading.
    pub fn total(&self) -> (total: u64)
        requires
            self.start_tsc <= self.end_tsc,
        ensures
            total == self.end_tsc - self.start_tsc,
    {
        self.end_tsc - self.start_tsc
    }
}

impl ScopeGuard {
    /// The label of the scope.
    pub closed spec fn label_text(&self) -> Seq<char> {
        self.0@
    }

    /// The label of the scope.
    pub fn label(&self) -> (label: &'static str)
        ensures
            label@ == self.label_text(),
    {
        self.0
    }

    /// Opens the scope `label` at counter reading `now`: the reading is held
    /// under the label, in place of any time held there before.
    pub fn start(profiler: &mut SimpleProfiler, label: &'static str, now: u64) -> (guard: Self)
        requires
            old(profiler).wf(),
        ensures
            guard.label_text() == label@,
            final(profiler).scopes@ == if has_label(old(profiler).scopes@, label@) {
                with_time(old(profiler).scopes@, label@, now)
            } else {
                old(profiler).scopes@.push((label, now))
            },
            final(profiler).start_tsc == old(profiler).start_tsc,
            final(profiler).end_tsc == old(profiler).end_tsc,
            final(profiler).wf(),
            final(profiler).times() == old(profiler).times().insert(label@, now),
    {
        proof {
            lemma_with_time(profiler.scopes@, label@, now);
            lemma_with_time_inserts(profiler.scopes@, label@, now);
            if !has_label(profiler.scopes@, label@) {
                lemma_push_inserts(profiler.scopes@, label, now);
            }
        }
        match profiler.find(label) {
            Some(_) => {
                profiler.update_scope_time(label, now);
            },
            None => {
                profiler.scopes.push((label, now));
            },
        }
        ScopeGuard(label)
    }

    /// Closes the scope `label` at counter reading `now`: the reading held
    /// under the label gives way to the time since then. The scope must be
    /// open and must not have started after `now`.
    pub fn end(profiler: &mut SimpleProfiler, label: &'static str, now: u64)
        requires
            old(profiler).wf(),
            has_label(old(profiler).scopes@, label@),
            time_of(old(profiler).scopes@, label@) <= now,
        ensures
            final(profiler).scopes@ == with_time(
                old(profiler).scopes@,
                label@,
                (now - time_of(old(profiler).scopes@, label@)) as u64,
            ),
            final(profiler).times() == old(profiler).times().insert(
                label@,
                (now - old(profiler).times()[label@]) as u64,
            ),
            final(profiler).start_tsc == old(profiler).start_tsc,
            final(profiler).end_tsc == old(profiler).end_tsc,
            final(profiler).wf(),
    {
        match profiler.scope_time(label) {
            Some(start) => {
                profiler.update_scope_time(label, now - start);
            },
            None => {},
        }
    }

    /// Whether closing this scope at `end_time` records a time: its label
    /// must hold a reading that was taken after the run started.
    pub open spec fn closes(&self, profiler: SimpleProfiler) -> bool {
        &&& has_label(profiler.scopes@, self.label_text())
        &&& time_of(profiler.scopes@, self.label_text()) > profiler.start_tsc
    }

    /// Closes the scope when its guard is given up, at counter reading
    /// `end_time`. Where the label holds a reading taken after the start of
    /// the run, the reading gives way to the time since then; otherwise
    /// nothing changes. A reading that is replaced must not be after
    /// `end_time`.
    pub fn close(self, profiler: &mut SimpleProfiler, end_time: u64)
        requires
            old(profiler).wf(),
            self.closes(*old(profiler)) ==> time_of(old(profiler).scopes@, self.label_text())
                <= end_time,
        ensures
            final(profiler).scopes@ == if self.closes(*old(profiler)) {
                with_time(
                    old(profiler).scopes@,
                    self.label_text(),
                    (end_time - time_of(old(profiler).scopes@, self.label_text())) as u64,
                )
            } else {
                old(profiler).scopes@
            },
            final(profiler).times() == if self.closes(*old(profiler)) {
                old(profiler).times().insert(
                    self.label_text(),
                    (end_time - old(profiler).times()[self.label_text()]) as u64,
                )
            } else {
                old(profiler).times()
            },
            final(profiler).start_tsc == old(profiler).start_tsc,
            final(profiler).end_tsc == old(profiler).end_tsc,
            final(profiler).wf(),
    {
        if let Some(start_time) = profiler.scope_time(self.0) {
            if start_time > profiler.start_tsc {
                let elapsed_time = end_time - start_time;
                profiler.update_scope_time(self.0, elapsed_time);
            }
        }
    }
}

} // verus!
