use vstd::prelude::*;

verus! {

/// What a queued brightness command asks for, without its level: the level is
/// a float that only the caller holds.
#[derive(Clone, Copy, Debug, PartialEq, Eq, Structural)]
pub enum CommandKind {
    /// Set every monitor to one level.
    SetAll,
    /// Re-read the monitors' levels.
    Refresh,
    /// Set the monitor at this index.
    SetOne(usize),
    /// Move every monitor by a delta.
    AdjustAll,
}

/// A run of queued commands, `first..=last`, that is carried out as one
/// command of kind `kind`.
#[derive(Clone, Copy, Debug, PartialEq, Eq, Structural)]
pub struct Batch {
    pub kind: CommandKind,
    pub first: usize,
    pub last: usize,
}

/// Whether `next`, queued right behind `prev`, is folded into it: two sets of
/// the same monitor (the later level wins), two sets of all monitors (the
/// later level wins), or two adjustments (the deltas add up). A refresh is
/// never folded.
pub open spec fn spec_mergeable(prev: CommandKind, next: CommandKind) -> bool {
    match (prev, next) {
        (CommandKind::SetOne(a), CommandKind::SetOne(b)) => a == b,
        (CommandKind::AdjustAll, CommandKind::AdjustAll) => true,
        (CommandKind::SetAll, CommandKind::SetAll) => true,
        _ => false,
    }
}

pub fn mergeable(prev: CommandKind, next: CommandKind) -> (res: bool)
    ensures
        res == spec_mergeable(prev, next),
{
    match (prev, next) {
        (CommandKind::SetOne(a), CommandKind::SetOne(b)) => a == b,
        (CommandKind::AdjustAll, CommandKind::AdjustAll) => true,
        (CommandKind::SetAll, CommandKind::SetAll) => true,
        _ => false,
    }
}

/// `batches` splits `kinds` into consecutive runs, in order and without gaps,
/// each made of commands that fold into one another, and no run could be
/// extended by the next command.
pub open spec fn is_coalescing(kinds: Seq<CommandKind>, batches: Seq<Batch>) -> bool {
    &&& (kinds.len() == 0 <==> batches.len() == 0)
    &&& batches.len() > 0 ==> batches[0].first == 0
    &&& batches.len() > 0 ==> batches.last().last == kinds.len() - 1
    &&& forall|k: int|
        #![trigger batches[k]]
        0 <= k < batches.len() ==> {
            &&& batches[k].first <= batches[k].last < kinds.len()
            &&& batches[k].kind == kinds[batches[k].first as int]
        }
    &&& forall|k: int, j: int|
        #![trigger batches[k], batches[j]]
        0 <= k && j == k + 1 && j < batches.len() ==> batches[j].first == batches[k].last + 1
    &&& forall|k: int, i: int|
        #![trigger batches[k], kinds[i]]
        0 <= k < batches.len() && batches[k].first <= i <= batches[k].last ==> kinds[i]
            == batches[k].kind
    &&& forall|k: int, i: int|
        #![trigger batches[k], kinds[i]]
        0 <= k < batches.len() && batches[k].first < i <= batches[k].last ==> spec_mergeable(
            kinds[i - 1],
            kinds[i],
        )
    &&& forall|k: int, j: int|
        #![trigger batches[k], batches[j]]
        0 <= k && j == k + 1 && j < batches.len() ==> !spec_mergeable(
            kinds[batches[k].last as int],
            kinds[batches[j].first as int],
        )
}

proof fn lemma_coalescing_push(kinds: Seq<CommandKind>, batches: Seq<Batch>, kind: CommandKind, i: usize)
    requires
        is_coalescing(kinds, batches),
        i == kinds.len(),
        batches.len() > 0 ==> !spec_mergeable(batches.last().kind, kind),
    ensures
        is_coalescing(kinds.push(kind), batches.push(Batch { kind, first: i, last: i })),
{
    let ks = kinds.push(kind);
    let bs = batches.push(Batch { kind, first: i, last: i });
    if batches.len() > 0 {
        let last = batches.last();
        assert(kinds[last.last as int] == last.kind);
    }
    assert forall|k: int, ii: int|
        #![trigger bs[k], ks[ii]]
        0 <= k < bs.len() && bs[k].first <= ii <= bs[k].last implies ks[ii] == bs[k].kind by {
        if k < batches.len() {
            assert(bs[k] == batches[k]);
            assert(ks[ii] == kinds[ii]);
        }
    }
    assert forall|k: int, ii: int|
        #![trigger bs[k], ks[ii]]
        0 <= k < bs.len() && bs[k].first < ii <= bs[k].last implies spec_mergeable(
        ks[ii - 1],
        ks[ii],
    ) by {
        assert(bs[k] == batches[k]);
        assert(ks[ii] == kinds[ii]);
        assert(ks[ii - 1] == kinds[ii - 1]);
        assert(kinds[ii] == batches[k].kind);
    }
    assert forall|k: int, j: int|
        #![trigger bs[k], bs[j]]
        0 <= k && j == k + 1 && j < bs.len() implies !spec_mergeable(
        ks[bs[k].last as int],
        ks[bs[j].first as int],
    ) by {
        if j < batches.len() {
            assert(bs[k] == batches[k]);
            assert(bs[j] == batches[j]);
        } else {
            assert(bs[k] == batches.last());
        }
    }
}

proof fn lemma_coalescing_extend(kinds: Seq<CommandKind>, batches: Seq<Batch>, kind: CommandKind, i: usize)
    requires
        is_coalescing(kinds, batches),
        i == kinds.len(),
        batches.len() > 0,
        spec_mergeable(batches.last().kind, kind),
    ensures
        is_coalescing(
            kinds.push(kind),
            batches.update(
                batches.len() - 1,
                Batch { kind: batches.last().kind, first: batches.last().first, last: i },
            ),
        ),
{
    let ks = kinds.push(kind);
    let last = batches.last();
    let n = batches.len() - 1;
    let bs = batches.update(n, Batch { kind: last.kind, first: last.first, last: i });
    assert(kinds[last.last as int] == last.kind);
    assert(kind == last.kind);
    assert forall|k: int, ii: int|
        #![trigger bs[k], ks[ii]]
        0 <= k < bs.len() && bs[k].first <= ii <= bs[k].last implies ks[ii] == bs[k].kind by {
        if k < n {
            assert(bs[k] == batches[k]);
        }
        if ii < i {
            assert(ks[ii] == kinds[ii]);
            if k == n {
                assert(batches[n].first <= ii <= batches[n].last);
            }
        }
    }
    assert forall|k: int, ii: int|
        #![trigger bs[k], ks[ii]]
        0 <= k < bs.len() && bs[k].first < ii <= bs[k].last implies spec_mergeable(
        ks[ii - 1],
        ks[ii],
    ) by {
        if k < n {
            assert(bs[k] == batches[k]);
            assert(ks[ii] == kinds[ii]);
            assert(ks[ii - 1] == kinds[ii - 1]);
            assert(kinds[ii] == batches[k].kind);
        } else if ii < i {
            assert(ks[ii] == kinds[ii]);
            assert(ks[ii - 1] == kinds[ii - 1]);
            assert(batches[n].first < ii <= batches[n].last);
            assert(kinds[ii] == batches[n].kind);
        } else {
            assert(ks[ii - 1] == kinds[ii - 1]);
        }
    }
    assert forall|k: int, j: int|
        #![trigger bs[k], bs[j]]
        0 <= k && j == k + 1 && j < bs.len() implies !spec_mergeable(
        ks[bs[k].last as int],
        ks[bs[j].first as int],
    ) by {
        assert(bs[k] == batches[k]);
        if j < n {
            assert(bs[j] == batches[j]);
        } else {
            assert(bs[j].first == batches[j].first);
            assert(batches[k].last < kinds.len());
        }
    }
    assert forall|k: int, j: int|
        #![trigger bs[k], bs[j]]
        0 <= k && j == k + 1 && j < bs.len() implies bs[j].first == bs[k].last + 1 by {
        assert(bs[k] == batches[k]);
    }
}

/// Folds a burst of queued commands: each command that folds into the one
/// queued before it joins that one's batch, every other command opens a new
/// batch.
pub fn coalesce(kinds: &Vec<CommandKind>) -> (batches: Vec<Batch>)
    ensures
        is_coalescing(kinds@, batches@),
{
    let n = kinds.len();
    let mut batches: Vec<Batch> = Vec::new();
    for i in 0..n
        invariant
            n == kinds@.len(),
            is_coalescing(kinds@.take(i as int), batches@),
    {
        let kind = kinds[i];
        proof {
            assert(kinds@.take(i + 1) == kinds@.take(i as int).push(kind));
        }
        let len = batches.len();
        if len > 0 && mergeable(batches[len - 1].kind, kind) {
            let last = batches[len - 1];
            proof {
                lemma_coalescing_extend(kinds@.take(i as int), batches@, kind, i);
            }
            batches.set(len - 1, Batch { kind: last.kind, first: last.first, last: i });
        } else {
            proof {
                lemma_coalescing_push(kinds@.take(i as int), batches@, kind, i);
            }
            batches.push(Batch { kind, first: i, last: i });
        }
    }
    assert(kinds@.take(n as int) == kinds@);
    batches
}

/// A refresh is never folded into anything: its batch holds it alone.
pub proof fn law_refresh_runs_alone(kinds: Seq<CommandKind>, batches: Seq<Batch>, k: int)
    requires
        is_coalescing(kinds, batches),
        0 <= k < batches.len(),
        batches[k].kind == CommandKind::Refresh,
    ensures
        batches[k].first == batches[k].last,
{
    let b = batches[k];
    if b.first < b.last {
        let i = b.first + 1;
        assert(kinds[i] == b.kind);
        assert(kinds[i - 1] == b.kind);
        assert(spec_mergeable(kinds[i - 1], kinds[i]));
    }
}

/// Coalescing loses no command and invents none: every queued command lies in
/// exactly one batch, and the batches follow the queue's order.
pub proof fn law_every_command_in_one_batch(kinds: Seq<CommandKind>, batches: Seq<Batch>, i: int)
    requires
        is_coalescing(kinds, batches),
        0 <= i < kinds.len(),
    ensures
        exists|k: int| 0 <= k < batches.len() && #[trigger] batches[k].first <= i <= batches[k].last,
        forall|k1: int, k2: int|
            0 <= k1 < k2 < batches.len() ==> #[trigger] batches[k1].last < #[trigger] batches[k2].first,
{
    lemma_batches_ordered(kinds, batches);
    lemma_batch_covering(kinds, batches, i, batches.len() - 1);
}

proof fn lemma_batches_ordered(kinds: Seq<CommandKind>, batches: Seq<Batch>)
    requires
        is_coalescing(kinds, batches),
    ensures
        forall|k1: int, k2: int|
            0 <= k1 < k2 < batches.len() ==> #[trigger] batches[k1].last < #[trigger] batches[k2].first,
{
    assert forall|k1: int, k2: int|
        0 <= k1 < k2 < batches.len() implies #[trigger] batches[k1].last < #[trigger] batches[k2].first by {
        lemma_batch_gap(kinds, batches, k1, k2);
    }
}

proof fn lemma_batch_gap(kinds: Seq<CommandKind>, batches: Seq<Batch>, k1: int, k2: int)
    requires
        is_coalescing(kinds, batches),
        0 <= k1 < k2 < batches.len(),
    ensures
        batches[k1].last < batches[k2].first,
    decreases k2 - k1,
{
    let b = batches[k2 - 1];
    assert(batches[k2].first == b.last + 1);
    if k1 < k2 - 1 {
        lemma_batch_gap(kinds, batches, k1, k2 - 1);
        assert(b.first <= b.last);
    }
}

proof fn lemma_batch_covering(kinds: Seq<CommandKind>, batches: Seq<Batch>, i: int, k: int)
    requires
        is_coalescing(kinds, batches),
        0 <= i < kinds.len(),
        0 <= k < batches.len(),
        i <= batches[k].last,
    ensures
        exists|kk: int| 0 <= kk <= k && #[trigger] batches[kk].first <= i <= batches[kk].last,
    decreases k,
{
    if batches[k].first <= i {
        assert(batches[k].first <= i <= batches[k].last);
    } else {
        assert(k > 0);
        let prev = batches[k - 1];
        assert(batches[k].first == prev.last + 1);
        lemma_batch_covering(kinds, batches, i, k - 1);
    }
}

proof fn lemma_same_batch(kinds: Seq<CommandKind>, a: Seq<Batch>, b: Seq<Batch>, k: int)
    requires
        is_coalescing(kinds, a),
        is_coalescing(kinds, b),
        0 <= k < a.len(),
        0 <= k < b.len(),
        a[k].first == b[k].first,
    ensures
        a[k] == b[k],
{
    let x = a[k];
    let y = b[k];
    if x.last < y.last {
        let i = x.last + 1;
        assert(kinds[i] == y.kind);
        assert(spec_mergeable(kinds[i - 1], kinds[i]));
        assert(k + 1 < a.len()) by {
            if k + 1 >= a.len() {
                assert(a.last().last == kinds.len() - 1);
            }
        }
        let z = a[k + 1];
        assert(z.first == x.last + 1);
        assert(!spec_mergeable(kinds[x.last as int], kinds[z.first as int]));
    } else if y.last < x.last {
        let i = y.last + 1;
        assert(kinds[i] == x.kind);
        assert(spec_mergeable(kinds[i - 1], kinds[i]));
        assert(k + 1 < b.len()) by {
            if k + 1 >= b.len() {
                assert(b.last().last == kinds.len() - 1);
            }
        }
        let z = b[k + 1];
        assert(z.first == y.last + 1);
        assert(!spec_mergeable(kinds[y.last as int], kinds[z.first as int]));
    }
}

proof fn lemma_same_prefix(kinds: Seq<CommandKind>, a: Seq<Batch>, b: Seq<Batch>, k: int)
    requires
        is_coalescing(kinds, a),
        is_coalescing(kinds, b),
        0 <= k < a.len(),
        0 <= k < b.len(),
    ensures
        a[k] == b[k],
    decreases k,
{
    if k == 0 {
        lemma_same_batch(kinds, a, b, 0);
    } else {
        lemma_same_prefix(kinds, a, b, k - 1);
        assert(a[k].first == a[k - 1].last + 1);
        assert(b[k].first == b[k - 1].last + 1);
        lemma_same_batch(kinds, a, b, k);
    }
}

/// The folding of a burst is determined by the burst: two splits that both
/// meet `is_coalescing` are the same, so `coalesce` has one right answer.
pub proof fn law_coalescing_is_unique(kinds: Seq<CommandKind>, a: Seq<Batch>, b: Seq<Batch>)
    requires
        is_coalescing(kinds, a),
        is_coalescing(kinds, b),
    ensures
        a == b,
{
    if a.len() < b.len() {
        if a.len() > 0 {
            lemma_same_prefix(kinds, a, b, a.len() - 1);
            assert(b[a.len() as int].first == b[a.len() - 1].last + 1);
            assert(b[a.len() as int].first <= b[a.len() as int].last);
        }
    } else if b.len() < a.len() {
        if b.len() > 0 {
            lemma_same_prefix(kinds, a, b, b.len() - 1);
            assert(a[b.len() as int].first == a[b.len() - 1].last + 1);
            assert(a[b.len() as int].first <= a[b.len() as int].last);
        }
    } else {
        assert forall|k: int| 0 <= k < a.len() implies a[k] == b[k] by {
            lemma_same_prefix(kinds, a, b, k);
        }
        assert(a =~= b);
    }
}

/// How many times a set-all is tried before giving up.
pub const APPLY_RETRIES: u32 = 3;

/// Milliseconds between two tries of a set-all that reached no monitor.
pub const RETRY_INTERVAL_MS: u64 = 2000;

/// Milliseconds of an idle queue after which the monitors are looked up again.
pub const IDLE_REENUMERATE_MS: u64 = 15000;

/// Milliseconds that must pass between two lookups of the monitors.
pub const REENUMERATE_COOLDOWN_MS: u128 = 5000;

/// Brings the remembered levels in line with the monitors found: when the
/// number of monitors changed, the levels are replaced by the probed ones;
/// otherwise they are kept.
pub fn align_levels<V: Copy>(probed: &Vec<V>, levels: &mut Vec<V>)
    ensures
        final(levels)@ == (if old(levels)@.len() != probed@.len() {
            probed@
        } else {
            old(levels)@
        }),
        final(levels)@.len() == probed@.len(),
{
    if levels.len() != probed.len() {
        *levels = copy_levels(probed);
    }
}

/// A copy of the levels.
fn copy_levels<V: Copy>(levels: &Vec<V>) -> (copy: Vec<V>)
    ensures
        copy@ == levels@,
{
    let mut copy: Vec<V> = Vec::new();
    let n = levels.len();
    for i in 0..n
        invariant
            n == levels@.len(),
            copy@ == levels@.take(i as int),
    {
        copy.push(levels[i]);
        assert(levels@.take(i + 1) == levels@.take(i as int).push(levels@[i as int]));
    }
    assert(levels@.take(n as int) == levels@);
    copy
}

/// Sets every remembered level to `value`.
pub fn set_all_levels<V: Copy>(levels: &mut Vec<V>, value: V)
    ensures
        final(levels)@.len() == old(levels)@.len(),
        forall|i: int| 0 <= i < final(levels)@.len() ==> #[trigger] final(levels)@[i] == value,
{
    let n = levels.len();
    for i in 0..n
        invariant
            n == levels@.len(),
            n == old(levels)@.len(),
            forall|j: int| 0 <= j < i ==> #[trigger] levels@[j] == value,
    {
        levels.set(i, value);
    }
}

/// Sets the level of the monitor at `index`, when there is both such a
/// monitor and such a level; returns whether it did.
pub fn set_level<V>(levels: &mut Vec<V>, monitor_count: usize, index: usize, value: V) -> (applied: bool)
    ensures
        applied == (index < monitor_count && index < old(levels)@.len()),
        applied ==> final(levels)@ == old(levels)@.update(index as int, value),
        !applied ==> final(levels)@ == old(levels)@,
{
    if index < monitor_count && index < levels.len() {
        levels.set(index, value);
        true
    } else {
        false
    }
}

/// A copy of the monitor names.
fn copy_names(names: &Vec<String>) -> (copy: Vec<String>)
    ensures
        copy@ == names@,
{
    let mut copy: Vec<String> = Vec::new();
    let n = names.len();
    for i in 0..n
        invariant
            n == names@.len(),
            copy@ == names@.take(i as int),
    {
        copy.push(names[i].clone());
        assert(names@.take(i + 1) == names@.take(i as int).push(names@[i as int]));
    }
    assert(names@.take(n as int) == names@);
    copy
}

/// What the worker publishes: the names of the monitors and their levels,
/// one level per name.
pub struct Published<V> {
    pub names: Vec<String>,
    pub levels: Vec<V>,
}

impl<V: Copy> Published<V> {
    /// The level shown in the tray: the first monitor's, if there is one.
    pub fn tray_level(&self) -> (level: Option<V>)
        ensures
            level == (if self.levels@.len() > 0 { Some(self.levels@[0]) } else { None }),
    {
        if self.levels.len() > 0 {
            Some(self.levels[0])
        } else {
            None
        }
    }
}

/// The monitors found by the last lookup, by name, and the brightness level the
/// worker holds for each. Every operation keeps one level per monitor, so
/// whatever is published pairs each monitor with its level.
pub struct LevelTable<V> {
    names: Vec<String>,
    levels: Vec<V>,
}

impl<V> View for LevelTable<V> {
    type V = Seq<V>;

    closed spec fn view(&self) -> Seq<V> {
        self.levels@
    }
}

impl<V> LevelTable<V> {
    #[verifier::type_invariant]
    spec fn one_level_per_monitor(self) -> bool {
        self.levels@.len() == self.names@.len()
    }

    /// The names of the monitors found by the last lookup.
    pub closed spec fn names(&self) -> Seq<String> {
        self.names@
    }

    /// The number of monitors found by the last lookup.
    pub open spec fn monitor_count(&self) -> nat {
        self.names().len()
    }
}

/// `action` publishes exactly what `table` holds: each monitor's name with its
/// level, as many levels as names, one per monitor of the last lookup.
pub open spec fn publishes<V>(action: Action<V>, table: LevelTable<V>) -> bool {
    &&& action matches Action::Publish(p)
    &&& p.names@ == table.names()
    &&& p.levels@ == table@
    &&& p.names@.len() == p.levels@.len()
    &&& p.levels@.len() == table.monitor_count()
}

impl<V: Copy> LevelTable<V> {
    /// No monitor looked up yet, no level.
    pub fn new() -> (table: Self)
        ensures
            table@ == Seq::<V>::empty(),
            table.names() == Seq::<String>::empty(),
    {
        LevelTable { names: Vec::new(), levels: Vec::new() }
    }

    /// After a lookup found monitors with these `names` and `probed` levels:
    /// the names are taken; the held levels stay when the number of monitors
    /// is the same, else they become the probed ones.
    pub fn realign(&mut self, names: &Vec<String>, probed: &Vec<V>)
        requires
            names@.len() == probed@.len(),
        ensures
            final(self)@ == (if old(self)@.len() != probed@.len() {
                probed@
            } else {
                old(self)@
            }),
            final(self).names() == names@,
    {
        proof {
            use_type_invariant(&*self);
        }
        let mut levels = copy_levels(&self.levels);
        align_levels(probed, &mut levels);
        *self = LevelTable { names: copy_names(names), levels };
    }

    /// Every monitor gets `value`.
    pub fn set_all(&mut self, value: V)
        ensures
            final(self)@.len() == old(self)@.len(),
            final(self).names() == old(self).names(),
            forall|i: int| 0 <= i < final(self)@.len() ==> #[trigger] final(self)@[i] == value,
    {
        proof {
            use_type_invariant(&*self);
        }
        let mut levels = copy_levels(&self.levels);
        set_all_levels(&mut levels, value);
        *self = LevelTable { names: copy_names(&self.names), levels };
    }

    /// After a set-all reached no monitor and the monitors were looked up
    /// again (found with these `names` and `probed` levels): the levels are
    /// aligned to them and all set to `value` again, without a publish.
    pub fn reapply_all(&mut self, names: &Vec<String>, probed: &Vec<V>, value: V)
        requires
            names@.len() == probed@.len(),
        ensures
            final(self).names() == names@,
            final(self)@.len() == probed@.len(),
            forall|i: int| 0 <= i < final(self)@.len() ==> #[trigger] final(self)@[i] == value,
    {
        self.realign(names, probed);
        self.set_all(value);
    }

    /// Takes the levels the monitors report (a refresh).
    pub fn reset(&mut self, probed: &Vec<V>)
        requires
            probed@.len() == old(self).monitor_count(),
        ensures
            final(self)@ == probed@,
            final(self).names() == old(self).names(),
    {
        *self = LevelTable { names: copy_names(&self.names), levels: copy_levels(probed) };
    }

    /// The monitor at `index`, if there is one, gets `value`; returns whether
    /// there was one.
    pub fn set_one(&mut self, index: usize, value: V) -> (applied: bool)
        ensures
            applied == (index < old(self).monitor_count()),
            applied ==> final(self)@ == old(self)@.update(index as int, value),
            !applied ==> final(self)@ == old(self)@,
            final(self).names() == old(self).names(),
    {
        proof {
            use_type_invariant(&*self);
        }
        let mut levels = copy_levels(&self.levels);
        let applied = set_level(&mut levels, self.names.len(), index, value);
        *self = LevelTable { names: copy_names(&self.names), levels };
        applied
    }

    /// Every level is replaced by what `adjust` makes of it and `delta`.
    pub fn adjust_each<F: Fn(V, V) -> V>(&mut self, adjust: &F, delta: V)
        requires
            forall|a: V, b: V| adjust.requires((a, b)),
        ensures
            final(self)@.len() == old(self)@.len(),
            final(self).names() == old(self).names(),
            forall|i: int|
                0 <= i < final(self)@.len() ==> adjust.ensures(
                    (old(self)@[i], delta),
                    #[trigger] final(self)@[i],
                ),
    {
        proof {
            use_type_invariant(&*self);
        }
        let mut levels = copy_levels(&self.levels);
        let n = levels.len();
        for i in 0..n
            invariant
                n == levels@.len(),
                n == old(self)@.len(),
                forall|a: V, b: V| adjust.requires((a, b)),
                forall|j: int| i <= j < n ==> levels@[j] == old(self)@[j],
                forall|j: int|
                    0 <= j < i ==> adjust.ensures((old(self)@[j], delta), #[trigger] levels@[j]),
        {
            let next = adjust(levels[i], delta);
            levels.set(i, next);
        }
        *self = LevelTable { names: copy_names(&self.names), levels };
    }

    /// The levels held, one per monitor.
    pub fn levels(&self) -> (levels: &Vec<V>)
        ensures
            levels@ == self@,
            levels@.len() == self.monitor_count(),
    {
        proof {
            use_type_invariant(self);
        }
        &self.levels
    }

    /// What a publish sends: every monitor's name with its level.
    pub fn status(&self) -> (status: Published<V>)
        ensures
            status.names@ == self.names(),
            status.levels@ == self@,
            status.names@.len() == status.levels@.len(),
            status.levels@.len() == self.monitor_count(),
    {
        proof {
            use_type_invariant(self);
        }
        Published { names: copy_names(&self.names), levels: copy_levels(&self.levels) }
    }
}

/// A brightness command with its level, generic in the level's type.
pub enum Command<V> {
    /// Set every monitor to one level.
    SetAll(V),
    /// Re-read the monitors' levels.
    Refresh,
    /// Set the monitor at this index.
    SetOne(usize, V),
    /// Move every monitor by a delta.
    AdjustAll(V),
}

impl<V> Command<V> {
    pub open spec fn spec_kind(&self) -> CommandKind {
        match self {
            Command::SetAll(_) => CommandKind::SetAll,
            Command::Refresh => CommandKind::Refresh,
            Command::SetOne(i, _) => CommandKind::SetOne(*i),
            Command::AdjustAll(_) => CommandKind::AdjustAll,
        }
    }

    /// What the command asks for, without its level.
    pub fn kind(&self) -> (kind: CommandKind)
        ensures
            kind == self.spec_kind(),
    {
        match self {
            Command::SetAll(_) => CommandKind::SetAll,
            Command::Refresh => CommandKind::Refresh,
            Command::SetOne(i, _) => CommandKind::SetOne(*i),
            Command::AdjustAll(_) => CommandKind::AdjustAll,
        }
    }
}

/// What the worker does after a command changed its levels, in order.
pub enum Action<V> {
    /// Publish the names and levels (and notify the flyout and the tray).
    Publish(Published<V>),
    /// Write this level to every monitor; a set-all that reached no monitor is
    /// tried again (`SetAllTries`).
    WriteAll(V),
    /// Write this level to the monitor at this index.
    WriteOne(usize, V),
    /// Write to each monitor its level, in order.
    WriteEach(Vec<V>),
}

/// Carries out one command on the levels, whose monitors were just looked up or
/// kept: `refreshed` are the levels the monitors report, `adjust` adds a delta
/// to a level and keeps it in range. Returns the actions to take, in order:
/// every command that changes a level is first published, then written; a
/// refresh is only published; a set for a monitor that does not exist does
/// nothing.
pub fn apply_command<V: Copy, F: Fn(V, V) -> V>(
    table: &mut LevelTable<V>,
    command: Command<V>,
    refreshed: &Vec<V>,
    adjust: &F,
) -> (actions: Vec<Action<V>>)
    requires
        refreshed@.len() == old(table).monitor_count(),
        forall|a: V, b: V| adjust.requires((a, b)),
    ensures
        final(table).names() == old(table).names(),
        match command {
            Command::SetAll(v) => {
                &&& final(table)@.len() == old(table)@.len()
                &&& forall|i: int| 0 <= i < final(table)@.len() ==> #[trigger] final(table)@[i] == v
                &&& actions@.len() == 2
                &&& publishes(actions@[0], *final(table))
                &&& actions@[1] matches Action::WriteAll(w) && w == v
            },
            Command::Refresh => {
                &&& final(table)@ == refreshed@
                &&& actions@.len() == 1
                &&& publishes(actions@[0], *final(table))
            },
            Command::SetOne(index, v) => if index < old(table).monitor_count() {
                &&& final(table)@ == old(table)@.update(index as int, v)
                &&& actions@.len() == 2
                &&& publishes(actions@[0], *final(table))
                &&& actions@[1] matches Action::WriteOne(i, w) && i == index && w == v
            } else {
                &&& final(table)@ == old(table)@
                &&& actions@.len() == 0
            },
            Command::AdjustAll(delta) => {
                &&& final(table)@.len() == old(table)@.len()
                &&& forall|i: int|
                    0 <= i < final(table)@.len() ==> adjust.ensures(
                        (old(table)@[i], delta),
                        #[trigger] final(table)@[i],
                    )
                &&& actions@.len() == 2
                &&& publishes(actions@[0], *final(table))
                &&& actions@[1] matches Action::WriteEach(levels) && levels@ == final(table)@
            },
        },
{
    let mut actions: Vec<Action<V>> = Vec::new();
    match command {
        Command::SetAll(v) => {
            table.set_all(v);
            actions.push(Action::Publish(table.status()));
            actions.push(Action::WriteAll(v));
        },
        Command::Refresh => {
            table.reset(refreshed);
            actions.push(Action::Publish(table.status()));
        },
        Command::SetOne(index, v) => {
            if table.set_one(index, v) {
                actions.push(Action::Publish(table.status()));
                actions.push(Action::WriteOne(index, v));
            }
        },
        Command::AdjustAll(delta) => {
            table.adjust_each(adjust, delta);
            actions.push(Action::Publish(table.status()));
            actions.push(Action::WriteEach(copy_levels(table.levels())));
        },
    }
    actions
}

/// Before a queued command runs, the monitors are looked up when they never
/// were, or when none was found and the cooldown has passed since the last
/// lookup. `since_lookup_ms` is the time since the last lookup, if any.
pub open spec fn spec_lookup_before_command(since_lookup_ms: Option<u128>, no_monitors: bool) -> bool {
    match since_lookup_ms {
        Some(ms) => no_monitors && ms >= REENUMERATE_COOLDOWN_MS,
        None => true,
    }
}

pub fn lookup_before_command(since_lookup_ms: Option<u128>, no_monitors: bool) -> (res: bool)
    ensures
        res == spec_lookup_before_command(since_lookup_ms, no_monitors),
{
    match since_lookup_ms {
        Some(ms) => no_monitors && ms >= REENUMERATE_COOLDOWN_MS,
        None => true,
    }
}

/// When the queue stays idle, the monitors are looked up again unless the
/// last lookup was less than the cooldown ago.
pub open spec fn spec_lookup_when_idle(since_lookup_ms: Option<u128>) -> bool {
    match since_lookup_ms {
        Some(ms) => ms >= REENUMERATE_COOLDOWN_MS,
        None => true,
    }
}

pub fn lookup_when_idle(since_lookup_ms: Option<u128>) -> (res: bool)
    ensures
        res == spec_lookup_when_idle(since_lookup_ms),
{
    match since_lookup_ms {
        Some(ms) => ms >= REENUMERATE_COOLDOWN_MS,
        None => true,
    }
}

/// The tries of one set-all command: a round writes the level to every
/// monitor; another round follows only when no monitor took the level and
/// fewer than `APPLY_RETRIES` rounds were made.
pub struct SetAllTries {
    rounds: u32,
}

impl SetAllTries {
    /// The number of rounds made so far.
    pub closed spec fn rounds_made(&self) -> nat {
        self.rounds as nat
    }

    pub closed spec fn wf(&self) -> bool {
        self.rounds <= APPLY_RETRIES
    }

    pub fn new() -> (tries: Self)
        ensures
            tries.rounds_made() == 0,
            tries.wf(),
    {
        SetAllTries { rounds: 0 }
    }

    /// Records a finished round; returns whether another round is due.
    pub fn round_done(&mut self, any_written: bool) -> (again: bool)
        requires
            old(self).wf(),
            old(self).rounds_made() < APPLY_RETRIES,
        ensures
            final(self).wf(),
            final(self).rounds_made() == old(self).rounds_made() + 1,
            again == (!any_written && final(self).rounds_made() < APPLY_RETRIES),
    {
        self.rounds = self.rounds + 1;
        !(any_written || self.rounds >= APPLY_RETRIES)
    }
}

/// The friendly name listed for the display device `device`: the name of the
/// first entry whose device matches, if any.
pub fn friendly_name_for(friendly: &Vec<(String, String)>, device: &Option<String>) -> (name: Option<String>)
    ensures
        device is None ==> name is None,
        device matches Some(d) ==> (name matches Some(n) ==> exists|i: int|
            0 <= i < friendly@.len() && (#[trigger] friendly@[i]).0@ == d@ && n@ == friendly@[i].1@
                && forall|j: int| 0 <= j < i ==> (#[trigger] friendly@[j]).0@ != d@),
        device matches Some(d) ==> (name is None <==> forall|i: int|
            0 <= i < friendly@.len() ==> (#[trigger] friendly@[i]).0@ != d@),
{
    match device {
        None => None,
        Some(d) => {
            let n = friendly.len();
            for i in 0..n
                invariant
                    n == friendly@.len(),
                    *device == Some(*d),
                    forall|j: int| 0 <= j < i ==> (#[trigger] friendly@[j]).0@ != d@,
            {
                if friendly[i].0 == *d {
                    let found = friendly[i].1.clone();
                    assert(friendly@[i as int].0@ == d@ && found@ == friendly@[i as int].1@);
                    return Some(found);
                }
            }
            None
        },
    }
}

/// The description shown for a monitor: its friendly name when there is a
/// non-empty one, else the description the monitor reports of itself.
pub fn choose_description(friendly: Option<String>, reported: String) -> (desc: String)
    ensures
        desc@ == (match friendly {
            Some(n) => if n@.len() > 0 { n@ } else { reported@ },
            None => reported@,
        }),
{
    match friendly {
        Some(n) => {
            if n.as_str().is_empty() {
                reported
            } else {
                n
            }
        },
        None => reported,
    }
}

/// The name shown first (in the tray tooltip): the first monitor's, or empty.
pub fn first_name(names: &Vec<String>) -> (name: String)
    ensures
        name@ == (if names@.len() > 0 { names@[0]@ } else { Seq::<char>::empty() }),
{
    if names.len() > 0 {
        names[0].clone()
    } else {
        String::new()
    }
}

/// The first command ever run is preceded by a lookup, whatever the (then
/// empty) monitor list says; afterwards monitors that were found are never
/// looked up again before a command, and an empty list is looked up again
/// once the cooldown has passed, never before.
pub proof fn law_lookup_before_command(no_monitors: bool, ms: u128)
    ensures
        spec_lookup_before_command(None, no_monitors),
        !spec_lookup_before_command(Some(ms), false),
        spec_lookup_before_command(Some(ms), true) <==> ms >= 5000,
{
}

/// When idle, the monitors are looked up again as soon as the cooldown has
/// passed since the last lookup, however long ago that was, and never sooner;
/// with no lookup yet, at once. More time since the last lookup never stops a
/// lookup.
pub proof fn law_idle_lookup_after_cooldown(ms: u128, later: u128)
    ensures
        spec_lookup_when_idle(None),
        spec_lookup_when_idle(Some(ms)) <==> ms >= 5000,
        ms <= later && spec_lookup_when_idle(Some(ms)) ==> spec_lookup_when_idle(Some(later)),
{
}

/// Which commands fold: two sets of one monitor, for every monitor, and never
/// sets of two different monitors; two set-alls; two adjustments; a refresh
/// never; and commands of different kinds never.
pub proof fn law_which_commands_fold(a: usize, b: usize, x: CommandKind, y: CommandKind)
    ensures
        spec_mergeable(CommandKind::SetOne(a), CommandKind::SetOne(b)) <==> a == b,
        spec_mergeable(CommandKind::SetAll, CommandKind::SetAll),
        spec_mergeable(CommandKind::AdjustAll, CommandKind::AdjustAll),
        !spec_mergeable(CommandKind::Refresh, x),
        !spec_mergeable(x, CommandKind::Refresh),
        spec_mergeable(x, y) ==> x == y,
{
}

/// A burst of sets of one monitor, of set-alls, or of adjustments runs as a
/// single batch covering the whole burst.
pub proof fn law_uniform_burst_is_one_batch(kinds: Seq<CommandKind>, batches: Seq<Batch>)
    requires
        is_coalescing(kinds, batches),
        kinds.len() > 0,
        kinds[0] != CommandKind::Refresh,
        forall|i: int| 0 <= i < kinds.len() ==> #[trigger] kinds[i] == kinds[0],
    ensures
        batches.len() == 1,
        batches[0] == (Batch { kind: kinds[0], first: 0, last: (kinds.len() - 1) as usize }),
{
    if batches.len() > 1 {
        let b0 = batches[0];
        let b1 = batches[1];
        assert(b1.first == b0.last + 1);
        assert(b1.first <= b1.last < kinds.len());
        assert(kinds[b0.last as int] == kinds[0]);
        assert(kinds[b1.first as int] == kinds[0]);
        assert(!spec_mergeable(kinds[b0.last as int], kinds[b1.first as int]));
        assert(false);
    }
}

} // verus!
