use vstd::prelude::*;

use crate::types::{Rule, RuleID, RuleView, RuleWithID};

verus! {

/// Why a store operation was refused.
#[derive(Debug)]
pub enum Error {
    /// No rule has the given identity.
    RuleNotFound,
    /// A rule with the same content exists, under this identity.
    RuleAlreadyExist(RuleID),
    /// The store cannot carry out the request.
    Internal(String),
}

/// What the store reports after each change of its rule table.
#[derive(Debug)]
pub enum Notification {
    RuleAdded { rule_id: RuleID, rule: Rule },
    RuleRemoved { rule_id: RuleID, rule: Rule },
    RuleUpdated { rule_id: RuleID, old_rule: Rule, new_rule: Rule },
}

pub ghost enum NotificationView {
    RuleAdded { rule_id: RuleID, rule: RuleView },
    RuleRemoved { rule_id: RuleID, rule: RuleView },
    RuleUpdated { rule_id: RuleID, old_rule: RuleView, new_rule: RuleView },
}

impl View for Notification {
    type V = NotificationView;

    open spec fn view(&self) -> NotificationView {
        match self {
            Notification::RuleAdded { rule_id, rule } => NotificationView::RuleAdded {
                rule_id: *rule_id,
                rule: rule@,
            },
            Notification::RuleRemoved { rule_id, rule } => NotificationView::RuleRemoved {
                rule_id: *rule_id,
                rule: rule@,
            },
            Notification::RuleUpdated { rule_id, old_rule, new_rule } =>
                NotificationView::RuleUpdated {
                rule_id: *rule_id,
                old_rule: old_rule@,
                new_rule: new_rule@,
            },
        }
    }
}

/// The abstract store: the next identity to hand out, the rules in order of
/// identity, and the notifications not yet delivered, oldest first.
pub ghost struct StoreModel {
    pub next_rule_id: RuleID,
    pub rules: Seq<(RuleID, RuleView)>,
    pub outbox: Seq<NotificationView>,
}

/// A request to the store, as the model sees it.
pub ghost enum StoreOp {
    Add(RuleView),
    Remove(RuleID),
    Update(RuleID, RuleView),
    Enable(RuleID),
    Disable(RuleID),
}

impl StoreModel {
    /// Identities rise strictly along the table and stay below the next one,
    /// and no two rules have the same content.
    pub open spec fn wf(self) -> bool {
        &&& forall|i: int, j: int|
            0 <= i < j < self.rules.len() ==> (#[trigger] self.rules[i]).0 < (#[trigger] self.rules[j]).0
        &&& forall|i: int| 0 <= i < self.rules.len() ==> (#[trigger] self.rules[i]).0 < self.next_rule_id
        &&& forall|i: int, j: int|
            0 <= i < j < self.rules.len() ==> (#[trigger] self.rules[i]).1 != (#[trigger] self.rules[j]).1
    }

    pub open spec fn has_id(self, id: RuleID) -> bool {
        exists|i: int| 0 <= i < self.rules.len() && (#[trigger] self.rules[i]).0 == id
    }

    pub open spec fn has_content(self, rule: RuleView) -> bool {
        exists|i: int| 0 <= i < self.rules.len() && (#[trigger] self.rules[i]).1 == rule
    }

    /// Position of the rule with identity `id`.
    pub open spec fn index_of(self, id: RuleID) -> int
        recommends
            self.has_id(id),
    {
        choose|i: int| 0 <= i < self.rules.len() && (#[trigger] self.rules[i]).0 == id
    }

    /// Position of the first rule with the content `rule`.
    pub open spec fn first_with(self, rule: RuleView) -> int
        recommends
            self.has_content(rule),
    {
        choose|i: int|
            0 <= i < self.rules.len() && (#[trigger] self.rules[i]).1 == rule && forall|j: int|
                0 <= j < i ==> (#[trigger] self.rules[j]).1 != rule
    }

    /// Whether another rule than `id` already has the content `rule`.
    pub open spec fn clashes(self, id: RuleID, rule: RuleView) -> bool {
        self.has_content(rule) && self.rules[self.first_with(rule)].0 != id
    }

    /// The content of `id` with `is_active` set as given.
    pub open spec fn activity(self, id: RuleID, is_active: bool) -> RuleView {
        RuleView { is_active, ..self.rules[self.index_of(id)].1 }
    }

    /// The store after `id`'s content is set to `rule`: unchanged where `id` is
    /// unknown or another rule already has that content.
    pub open spec fn change(self, id: RuleID, rule: RuleView) -> StoreModel {
        if self.has_id(id) && !self.clashes(id, rule) {
            self.replaced(id, rule)
        } else {
            self
        }
    }

    /// The table after `id`'s content is replaced by `rule`.
    pub open spec fn replaced(self, id: RuleID, rule: RuleView) -> StoreModel {
        let i = self.index_of(id);
        let old_rule = self.rules[i].1;
        StoreModel {
            next_rule_id: self.next_rule_id,
            rules: self.rules.update(i, (id, rule)),
            outbox: self.outbox.push(
                NotificationView::RuleUpdated { rule_id: id, old_rule, new_rule: rule },
            ),
        }
    }

    /// The store after `op`.
    pub open spec fn step(self, op: StoreOp) -> StoreModel {
        match op {
            StoreOp::Add(rule) => {
                if self.has_content(rule) || self.next_rule_id == u64::MAX {
                    self
                } else {
                    let id = self.next_rule_id;
                    StoreModel {
                        next_rule_id: (id + 1) as RuleID,
                        rules: self.rules.push((id, rule)),
                        outbox: self.outbox.push(NotificationView::RuleAdded { rule_id: id, rule }),
                    }
                }
            },
            StoreOp::Remove(id) => {
                if self.has_id(id) {
                    let i = self.index_of(id);
                    StoreModel {
                        next_rule_id: self.next_rule_id,
                        rules: self.rules.remove(i),
                        outbox: self.outbox.push(
                            NotificationView::RuleRemoved { rule_id: id, rule: self.rules[i].1 },
                        ),
                    }
                } else {
                    self
                }
            },
            StoreOp::Update(id, rule) => self.change(id, rule),
            StoreOp::Enable(id) => self.change(id, self.activity(id, true)),
            StoreOp::Disable(id) => self.change(id, self.activity(id, false)),
        }
    }

    /// Whether `op` changes the table (and so is answered with success).
    pub open spec fn succeeds(self, op: StoreOp) -> bool {
        match op {
            StoreOp::Add(rule) => !self.has_content(rule) && self.next_rule_id != u64::MAX,
            StoreOp::Remove(id) => self.has_id(id),
            StoreOp::Update(id, rule) => self.has_id(id) && !self.clashes(id, rule),
            StoreOp::Enable(id) => self.has_id(id) && !self.clashes(id, self.activity(id, true)),
            StoreOp::Disable(id) => self.has_id(id) && !self.clashes(id, self.activity(id, false)),
        }
    }

    /// In a well-formed table, each identity stands at one position.
    pub proof fn lemma_index_of(self, i: int)
        requires
            self.wf(),
            0 <= i < self.rules.len(),
        ensures
            self.has_id(self.rules[i].0),
            self.index_of(self.rules[i].0) == i,
    {
        let id = self.rules[i].0;
        assert(self.rules[i].0 == id);
        let k = self.index_of(id);
        if k < i {
            assert(self.rules[k].0 < self.rules[i].0);
        } else if k > i {
            assert(self.rules[i].0 < self.rules[k].0);
        }
    }

    /// In a well-formed table, each content stands at one position.
    pub proof fn lemma_first_with(self, j: int)
        requires
            self.wf(),
            0 <= j < self.rules.len(),
        ensures
            self.has_content(self.rules[j].1),
            self.first_with(self.rules[j].1) == j,
    {
        let rule = self.rules[j].1;
        assert(self.rules[j].1 == rule);
        assert forall|a: int| 0 <= a < j implies (#[trigger] self.rules[a]).1 != rule by {
            assert(self.rules[a].1 != self.rules[j].1);
        }
        let k = self.first_with(rule);
        if k > j {
            assert(self.rules[j].1 != rule);
        } else if k < j {
            assert(self.rules[k].1 != self.rules[j].1);
        }
    }

    /// Setting the content at position `i` to `rule` keeps the table well
    /// formed where no other rule has that content.
    pub proof fn lemma_replace_wf(self, i: int, rule: RuleView)
        requires
            self.wf(),
            0 <= i < self.rules.len(),
            !self.clashes(self.rules[i].0, rule),
        ensures
            (StoreModel { rules: self.rules.update(i, (self.rules[i].0, rule)), ..self }).wf(),
    {
        let t = self.rules.update(i, (self.rules[i].0, rule));
        self.lemma_index_of(i);
        assert forall|a: int, b: int|
            0 <= a < b < t.len() implies (#[trigger] t[a]).0 < (#[trigger] t[b]).0 by {
            assert(t[a].0 == self.rules[a].0);
            assert(t[b].0 == self.rules[b].0);
        }
        assert forall|a: int| 0 <= a < t.len() implies (#[trigger] t[a]).0 < self.next_rule_id by {
            assert(t[a].0 == self.rules[a].0);
        }
        assert forall|a: int, b: int|
            0 <= a < b < t.len() implies (#[trigger] t[a]).1 != (#[trigger] t[b]).1 by {
            if a == i {
                if self.rules[b].1 == rule {
                    self.lemma_first_with(b);
                    assert(self.rules[b].0 != self.rules[i].0);
                }
            } else if b == i {
                if self.rules[a].1 == rule {
                    self.lemma_first_with(a);
                    assert(self.rules[a].0 != self.rules[i].0);
                }
            } else {
                assert(self.rules[a].1 != self.rules[b].1);
            }
        }
    }

    /// The store after each of `ops` in turn.
    pub open spec fn run(self, ops: Seq<StoreOp>) -> StoreModel
        decreases ops.len(),
    {
        if ops.len() == 0 {
            self
        } else {
            self.step(ops[0]).run(ops.drop_first())
        }
    }
}

/// A request leaves the table well formed and never lowers the next identity.
pub proof fn lemma_step_wf(s: StoreModel, op: StoreOp)
    requires
        s.wf(),
    ensures
        s.step(op).wf(),
        s.step(op).next_rule_id >= s.next_rule_id,
{
    let t = s.step(op);
    if s.succeeds(op) {
        match op {
            StoreOp::Add(rule) => {
                assert forall|a: int, b: int|
                    0 <= a < b < t.rules.len() implies (#[trigger] t.rules[a]).0
                    < (#[trigger] t.rules[b]).0 by {
                    assert(t.rules[a] == s.rules[a]);
                    if b < s.rules.len() {
                        assert(t.rules[b] == s.rules[b]);
                    }
                }
                assert forall|a: int| 0 <= a < t.rules.len() implies (#[trigger] t.rules[a]).0
                    < t.next_rule_id by {
                    if a < s.rules.len() {
                        assert(t.rules[a] == s.rules[a]);
                    }
                }
                assert forall|a: int, b: int|
                    0 <= a < b < t.rules.len() implies (#[trigger] t.rules[a]).1
                    != (#[trigger] t.rules[b]).1 by {
                    assert(t.rules[a] == s.rules[a]);
                    if b < s.rules.len() {
                        assert(t.rules[b] == s.rules[b]);
                    } else {
                        assert(s.rules[a].1 != rule);
                    }
                }
            },
            StoreOp::Remove(id) => {
                let i = s.index_of(id);
                assert forall|a: int, b: int|
                    0 <= a < b < t.rules.len() implies (#[trigger] t.rules[a]).0
                    < (#[trigger] t.rules[b]).0 by {
                    let a0 = if a < i { a } else { a + 1 };
                    let b0 = if b < i { b } else { b + 1 };
                    assert(t.rules[a] == s.rules[a0]);
                    assert(t.rules[b] == s.rules[b0]);
                    assert(s.rules[a0].0 < s.rules[b0].0);
                }
                assert forall|a: int| 0 <= a < t.rules.len() implies (#[trigger] t.rules[a]).0
                    < t.next_rule_id by {
                    let a0 = if a < i { a } else { a + 1 };
                    assert(t.rules[a] == s.rules[a0]);
                }
                assert forall|a: int, b: int|
                    0 <= a < b < t.rules.len() implies (#[trigger] t.rules[a]).1
                    != (#[trigger] t.rules[b]).1 by {
                    let a0 = if a < i { a } else { a + 1 };
                    let b0 = if b < i { b } else { b + 1 };
                    assert(t.rules[a] == s.rules[a0]);
                    assert(t.rules[b] == s.rules[b0]);
                    assert(s.rules[a0].1 != s.rules[b0].1);
                }
            },
            StoreOp::Update(id, rule) => lemma_change_wf(s, id, rule),
            StoreOp::Enable(id) => lemma_change_wf(s, id, s.activity(id, true)),
            StoreOp::Disable(id) => lemma_change_wf(s, id, s.activity(id, false)),
        }
    }
}

/// Setting a known identity's content to one that no other rule has keeps the
/// table well formed.
pub proof fn lemma_change_wf(s: StoreModel, id: RuleID, rule: RuleView)
    requires
        s.wf(),
        s.has_id(id),
        !s.clashes(id, rule),
    ensures
        s.change(id, rule).wf(),
{
    let i = s.index_of(id);
    assert(s.rules[i].0 == id);
    s.lemma_replace_wf(i, rule);
    let m = StoreModel { rules: s.rules.update(i, (s.rules[i].0, rule)), ..s };
    assert(s.change(id, rule).rules == m.rules);
}

/// Any run of requests leaves the table well formed and never lowers the
/// next identity.
pub proof fn lemma_run_wf(s: StoreModel, ops: Seq<StoreOp>)
    requires
        s.wf(),
    ensures
        s.run(ops).wf(),
        s.run(ops).next_rule_id >= s.next_rule_id,
    decreases ops.len(),
{
    if ops.len() > 0 {
        lemma_step_wf(s, ops[0]);
        lemma_run_wf(s.step(ops[0]), ops.drop_first());
    }
}

/// Running `ops` is running its first `k` requests, then the rest.
pub proof fn lemma_run_split(s: StoreModel, ops: Seq<StoreOp>, k: int)
    requires
        0 <= k <= ops.len(),
    ensures
        s.run(ops) == s.run(ops.take(k)).run(ops.skip(k)),
    decreases k,
{
    if k == 0 {
        assert(ops.take(0) =~= Seq::<StoreOp>::empty());
        assert(ops.skip(0) =~= ops);
    } else {
        assert(ops.take(k).drop_first() =~= ops.drop_first().take(k - 1));
        assert(ops.skip(k) =~= ops.drop_first().skip(k - 1));
        assert(ops.take(k)[0] == ops[0]);
        lemma_run_split(s.step(ops[0]), ops.drop_first(), k - 1);
    }
}

/// Identities handed out by successful additions rise strictly along any run
/// of requests, removals included, so none is handed out twice.
pub proof fn law_ids_strictly_increase(s: StoreModel, ops: Seq<StoreOp>, i: int, j: int)
    requires
        s.wf(),
        0 <= i < j < ops.len(),
        ops[i] is Add,
        ops[j] is Add,
        s.run(ops.take(i)).succeeds(ops[i]),
        s.run(ops.take(j)).succeeds(ops[j]),
    ensures
        s.run(ops.take(i)).next_rule_id < s.run(ops.take(j)).next_rule_id,
{
    let pre = ops.take(j);
    lemma_run_split(s, pre, i + 1);
    assert(pre.take(i + 1) =~= ops.take(i + 1));
    lemma_run_split(s, ops.take(i + 1), i);
    assert(ops.take(i + 1).take(i) =~= ops.take(i));
    let mid = s.run(ops.take(i));
    lemma_run_wf(s, ops.take(i));
    let single = ops.take(i + 1).skip(i);
    assert(single.drop_first() =~= Seq::<StoreOp>::empty());
    assert(single.len() == 1);
    assert(single[0] == ops[i]);
    assert(mid.step(ops[i]).run(single.drop_first()) == mid.step(ops[i]));
    assert(mid.run(single) == mid.step(ops[i]));
    lemma_step_wf(mid, ops[i]);
    lemma_run_wf(mid.step(ops[i]), pre.skip(i + 1));
}

/// An addition whose content is already in the table changes nothing: the
/// table keeps its size and no notification is queued.
pub proof fn law_duplicate_rejected(s: StoreModel, rule: RuleView)
    requires
        s.wf(),
        s.has_content(rule),
    ensures
        !s.succeeds(StoreOp::Add(rule)),
        s.step(StoreOp::Add(rule)) == s,
        s.step(StoreOp::Add(rule)).rules.len() == s.rules.len(),
{
}

/// Along any run of requests, no two rules ever have the same content.
pub proof fn law_contents_unique(s: StoreModel, ops: Seq<StoreOp>)
    requires
        s.wf(),
    ensures
        forall|i: int, j: int|
            0 <= i < j < s.run(ops).rules.len() ==> (#[trigger] s.run(ops).rules[i]).1
                != (#[trigger] s.run(ops).rules[j]).1,
{
    lemma_run_wf(s, ops);
}

/// Updating, enabling or disabling a rule so that it would get the content
/// of another rule is refused and changes nothing: the table and the queue of
/// notifications stay as they were.
pub proof fn law_duplicate_change_rejected(s: StoreModel, id: RuleID, rule: RuleView)
    requires
        s.wf(),
        s.has_id(id),
    ensures
        s.clashes(id, rule) ==> !s.succeeds(StoreOp::Update(id, rule)) && s.step(
            StoreOp::Update(id, rule),
        ) == s,
        s.clashes(id, s.activity(id, true)) ==> !s.succeeds(StoreOp::Enable(id)) && s.step(
            StoreOp::Enable(id),
        ) == s,
        s.clashes(id, s.activity(id, false)) ==> !s.succeeds(StoreOp::Disable(id)) && s.step(
            StoreOp::Disable(id),
        ) == s,
        !s.clashes(id, s.rules[s.index_of(id)].1),
{
    let i = s.index_of(id);
    assert(s.rules[i].0 == id);
    s.lemma_first_with(i);
}

/// Enabling, disabling or updating an unknown identity fails and queues no
/// notification.
pub proof fn law_unknown_id(s: StoreModel, id: RuleID, rule: RuleView)
    requires
        s.wf(),
        !s.has_id(id),
    ensures
        !s.succeeds(StoreOp::Enable(id)),
        !s.succeeds(StoreOp::Disable(id)),
        !s.succeeds(StoreOp::Update(id, rule)),
        s.step(StoreOp::Enable(id)).outbox == s.outbox,
        s.step(StoreOp::Disable(id)).outbox == s.outbox,
        s.step(StoreOp::Update(id, rule)).outbox == s.outbox,
{
}

/// The number of requests in `ops` that succeed when run from `s`.
pub open spec fn successes(s: StoreModel, ops: Seq<StoreOp>) -> nat
    decreases ops.len(),
{
    if ops.len() == 0 {
        0
    } else {
        (if s.succeeds(ops[0]) {
            1nat
        } else {
            0nat
        }) + successes(s.step(ops[0]), ops.drop_first())
    }
}

/// Each request queues exactly one notification when it succeeds and none
/// when it fails, after those already queued.
pub proof fn law_one_notification_per_change(s: StoreModel, op: StoreOp)
    ensures
        s.step(op).outbox.len() == s.outbox.len() + if s.succeeds(op) {
            1int
        } else {
            0int
        },
        s.step(op).outbox.take(s.outbox.len() as int) == s.outbox,
        op matches StoreOp::Add(rule) ==> s.succeeds(op) ==> s.step(op).outbox == s.outbox.push(
            NotificationView::RuleAdded { rule_id: s.next_rule_id, rule },
        ),
{
    assert(s.step(op).outbox.take(s.outbox.len() as int) =~= s.outbox);
}

/// Along any run of requests, one notification is queued per successful
/// request, and the notifications of earlier requests stay ahead of those of
/// later ones: the queue after the first `k` requests is a prefix of the final
/// queue.
pub proof fn law_notifications_in_order(s: StoreModel, ops: Seq<StoreOp>, k: int)
    requires
        0 <= k <= ops.len(),
    ensures
        s.run(ops).outbox.len() == s.outbox.len() + successes(s, ops),
        s.run(ops).outbox.take(s.run(ops.take(k)).outbox.len() as int) == s.run(
            ops.take(k),
        ).outbox,
    decreases ops.len(),
{
    law_one_notification_per_change(s, if ops.len() > 0 { ops[0] } else { StoreOp::Remove(0) });
    if ops.len() == 0 {
        assert(ops.take(k) =~= ops);
        assert(s.outbox.take(s.outbox.len() as int) =~= s.outbox);
    } else {
        let t = s.step(ops[0]);
        law_notifications_in_order(t, ops.drop_first(), if k > 0 { k - 1 } else { 0 });
        if k == 0 {
            assert(ops.take(0) =~= Seq::<StoreOp>::empty());
            law_notifications_in_order(t, ops.drop_first(), 0);
            assert(ops.drop_first().take(0) =~= Seq::<StoreOp>::empty());
            assert(t.run(ops.drop_first()).outbox.take(t.outbox.len() as int) == t.outbox);
            assert(s.run(ops).outbox.take(s.outbox.len() as int) =~= t.outbox.take(
                s.outbox.len() as int,
            ));
        } else {
            assert(ops.take(k).drop_first() =~= ops.drop_first().take(k - 1));
            assert(ops.take(k)[0] == ops[0]);
        }
    }
}

/// The rule table, its identity counter and the notifications not yet sent.
///
/// The store is the one writer of its table; each change is reported by one
/// notification, queued in the order of the changes.
pub struct State {
    next_rule_id: RuleID,
    rules: Vec<RuleWithID>,
    outbox: Vec<Notification>,
}

impl View for State {
    type V = StoreModel;

    closed spec fn view(&self) -> StoreModel {
        StoreModel {
            next_rule_id: self.next_rule_id,
            rules: self.rules@.map_values(|r: RuleWithID| r@),
            outbox: self.outbox@.map_values(|n: Notification| n@),
        }
    }
}

impl State {
    /// An empty store whose first identity is 0.
    pub fn new() -> (r: State)
        ensures
            r@.next_rule_id == 0,
            r@.rules.len() == 0,
            r@.outbox.len() == 0,
            r@.wf(),
    {
        let r = State { next_rule_id: 0, rules: Vec::new(), outbox: Vec::new() };
        assert(r@.rules =~= Seq::<(RuleID, RuleView)>::empty());
        assert(r@.outbox =~= Seq::<NotificationView>::empty());
        r
    }

    /// Hands out the next identity.
    pub fn next_rule_id(&mut self) -> (r: RuleID)
        requires
            old(self)@.wf(),
            old(self)@.next_rule_id < u64::MAX,
        ensures
            final(self)@.wf(),
            r == old(self)@.next_rule_id,
            final(self)@ == (StoreModel { next_rule_id: (r + 1) as RuleID, ..old(self)@ }),
    {
        let rule_id = self.next_rule_id;
        self.next_rule_id = self.next_rule_id + 1;
        rule_id
    }

    /// Queues a notification after those already queued.
    pub fn notify(&mut self, notification: Notification)
        ensures
            final(self)@ == (StoreModel {
                outbox: old(self)@.outbox.push(notification@),
                ..old(self)@
            }),
    {
        self.outbox.push(notification);
        assert(self@.outbox =~= old(self)@.outbox.push(notification@));
    }

    /// Position of the rule with identity `rule_id`.
    fn position(&self, rule_id: RuleID) -> (r: Option<usize>)
        requires
            self@.wf(),
        ensures
            r is None <==> !self@.has_id(rule_id),
            r matches Some(i) ==> i < self@.rules.len() && i == self@.index_of(rule_id),
    {
        let mut i: usize = 0;
        while i < self.rules.len()
            invariant
                self@.wf(),
                i <= self.rules@.len(),
                self@.rules.len() == self.rules@.len(),
                forall|j: int| 0 <= j < i ==> (#[trigger] self@.rules[j]).0 != rule_id,
            decreases self.rules.len() - i,
        {
            if self.rules[i].id == rule_id {
                proof {
                    self@.lemma_index_of(i as int);
                }
                return Some(i);
            }
            i += 1;
        }
        None
    }

    /// Position of the first rule whose content is `rule`.
    fn position_of_content(&self, rule: &Rule) -> (r: Option<usize>)
        ensures
            r is None <==> !self@.has_content(rule@),
            r matches Some(i) ==> i < self@.rules.len() && i == self@.first_with(rule@),
    {
        let mut i: usize = 0;
        while i < self.rules.len()
            invariant
                i <= self.rules@.len(),
                self@.rules.len() == self.rules@.len(),
                forall|j: int| 0 <= j < i ==> (#[trigger] self@.rules[j]).1 != rule@,
            decreases self.rules.len() - i,
        {
            if self.rules[i].rule == *rule {
                proof {
                    assert(self@.rules[i as int].1 == rule@);
                    let k = self@.first_with(rule@);
                    assert(self@.rules[k].1 == rule@);
                    if k < i {
                        assert(self@.rules[k].1 != rule@);
                    } else if k > i {
                        assert(self@.rules[i as int].1 != rule@);
                    }
                }
                return Some(i);
            }
            i += 1;
        }
        None
    }

    /// Adds `rule` under a fresh identity, unless a rule with the same content
    /// exists: then the identity of the first such rule is returned in the error.
    pub fn add_rule(&mut self, rule: Rule) -> (r: Result<RuleID, Error>)
        requires
            old(self)@.wf(),
        ensures
            final(self)@.wf(),
            final(self)@ == old(self)@.step(StoreOp::Add(rule@)),
            r is Ok <==> old(self)@.succeeds(StoreOp::Add(rule@)),
            r matches Ok(id) ==> id == old(self)@.next_rule_id,
            r matches Err(Error::RuleAlreadyExist(id)) ==> old(self)@.has_content(rule@) && id
                == old(self)@.rules[old(self)@.first_with(rule@)].0,
            r matches Err(Error::Internal(_)) ==> !old(self)@.has_content(rule@)
                && old(self)@.next_rule_id == u64::MAX,
            !(r matches Err(Error::RuleNotFound)),
            old(self)@.has_content(rule@) ==> r matches Err(Error::RuleAlreadyExist(_)),
    {
        proof {
            lemma_step_wf(old(self)@, StoreOp::Add(rule@));
        }
        match self.position_of_content(&rule) {
            Some(i) => Err(Error::RuleAlreadyExist(self.rules[i].id)),
            None => {
                if self.next_rule_id == u64::MAX {
                    return Err(Error::Internal(String::from_str("rule identities are exhausted")));
                }
                let rule_id = self.next_rule_id();
                let added = rule.clone();
                self.rules.push(RuleWithID { id: rule_id, rule });
                self.notify(Notification::RuleAdded { rule_id, rule: added });
                proof {
                    assert(self@.rules =~= old(self)@.rules.push((rule_id, rule@)));
                }
                Ok(rule_id)
            },
        }
    }
}

impl State {
    /// Replaces the content at position `i` and reports the change.
    fn replace_at(&mut self, i: usize, new_rule: Rule)
        requires
            old(self)@.wf(),
            i < old(self)@.rules.len(),
            !old(self)@.clashes(old(self)@.rules[i as int].0, new_rule@),
        ensures
            final(self)@ == old(self)@.replaced(old(self)@.rules[i as int].0, new_rule@),
    {
        proof {
            old(self)@.lemma_index_of(i as int);
        }
        let rule_id = self.rules[i].id;
        let old_rule = self.rules[i].rule.clone();
        let reported = new_rule.clone();
        self.rules.set(i, RuleWithID { id: rule_id, rule: new_rule });
        self.notify(Notification::RuleUpdated { rule_id, old_rule, new_rule: reported });
        proof {
            assert(self@.rules =~= old(self)@.rules.update(i as int, (rule_id, new_rule@)));
        }
    }

    /// Sets the content of the rule at position `i` (identity `rule_id`) to
    /// `new_rule`, unless another rule already has that content.
    fn change_at(&mut self, i: usize, rule_id: RuleID, new_rule: Rule) -> (r: Result<(), Error>)
        requires
            old(self)@.wf(),
            i < old(self)@.rules.len(),
            i == old(self)@.index_of(rule_id),
            old(self)@.has_id(rule_id),
        ensures
            final(self)@ == old(self)@.change(rule_id, new_rule@),
            r is Ok <==> !old(self)@.clashes(rule_id, new_rule@),
            r matches Err(e) ==> e == Error::RuleAlreadyExist(
                old(self)@.rules[old(self)@.first_with(new_rule@)].0,
            ),
    {
        match self.position_of_content(&new_rule) {
            Some(j) => {
                if self.rules[j].id != rule_id {
                    return Err(Error::RuleAlreadyExist(self.rules[j].id));
                }
            },
            None => {},
        }
        self.replace_at(i, new_rule);
        Ok(())
    }

    /// Deletes the rule with identity `rule_id` and reports it; does nothing where
    /// there is none.
    pub fn remove_rule(&mut self, rule_id: RuleID)
        requires
            old(self)@.wf(),
        ensures
            final(self)@.wf(),
            final(self)@ == old(self)@.step(StoreOp::Remove(rule_id)),
    {
        proof {
            lemma_step_wf(old(self)@, StoreOp::Remove(rule_id));
        }
        match self.position(rule_id) {
            Some(i) => {
                let removed = self.rules.remove(i);
                proof {
                    assert(self@.rules =~= old(self)@.rules.remove(i as int));
                }
                self.notify(Notification::RuleRemoved { rule_id, rule: removed.rule });
            },
            None => {},
        }
    }

    /// Replaces the content of the rule with identity `rule_id` and reports it;
    /// refused where another rule already has the new content.
    pub fn update_rule(&mut self, rule_id: RuleID, new_rule: Rule) -> (r: Result<(), Error>)
        requires
            old(self)@.wf(),
        ensures
            final(self)@.wf(),
            final(self)@ == old(self)@.step(StoreOp::Update(rule_id, new_rule@)),
            r is Ok <==> old(self)@.succeeds(StoreOp::Update(rule_id, new_rule@)),
            r matches Err(Error::RuleNotFound) <==> !old(self)@.has_id(rule_id),
            r matches Err(Error::RuleAlreadyExist(_)) <==> old(self)@.has_id(rule_id)
                && old(self)@.clashes(rule_id, new_rule@),
            r matches Err(Error::RuleAlreadyExist(e)) ==> e == old(self)@.rules[old(
                self,
            )@.first_with(new_rule@)].0,
            !(r matches Err(Error::Internal(_))),
    {
        proof {
            lemma_step_wf(old(self)@, StoreOp::Update(rule_id, new_rule@));
        }
        match self.position(rule_id) {
            Some(i) => self.change_at(i, rule_id, new_rule),
            None => Err(Error::RuleNotFound),
        }
    }

    /// The content at position `i` with `is_active` set as given.
    fn with_activity(&self, i: usize, is_active: bool) -> (r: Rule)
        requires
            i < self@.rules.len(),
        ensures
            r@ == (RuleView { is_active, ..self@.rules[i as int].1 }),
    {
        let mut rule = self.rules[i].rule.clone();
        rule.is_active = is_active;
        rule
    }

    /// Marks the rule with identity `rule_id` active and reports it; refused
    /// where another rule already has the resulting content.
    pub fn enable_rule(&mut self, rule_id: RuleID) -> (r: Result<(), Error>)
        requires
            old(self)@.wf(),
        ensures
            final(self)@.wf(),
            final(self)@ == old(self)@.step(StoreOp::Enable(rule_id)),
            r is Ok <==> old(self)@.succeeds(StoreOp::Enable(rule_id)),
            r matches Err(Error::RuleNotFound) <==> !old(self)@.has_id(rule_id),
            r matches Err(Error::RuleAlreadyExist(_)) <==> old(self)@.has_id(rule_id)
                && old(self)@.clashes(rule_id, old(self)@.activity(rule_id, true)),
            r matches Err(Error::RuleAlreadyExist(e)) ==> e == old(self)@.rules[old(
                self,
            )@.first_with(old(self)@.activity(rule_id, true))].0,
            !(r matches Err(Error::Internal(_))),
    {
        self.set_activity(rule_id, true)
    }

    /// Marks the rule with identity `rule_id` inactive and reports it; refused
    /// where another rule already has the resulting content.
    pub fn disable_rule(&mut self, rule_id: RuleID) -> (r: Result<(), Error>)
        requires
            old(self)@.wf(),
        ensures
            final(self)@.wf(),
            final(self)@ == old(self)@.step(StoreOp::Disable(rule_id)),
            r is Ok <==> old(self)@.succeeds(StoreOp::Disable(rule_id)),
            r matches Err(Error::RuleNotFound) <==> !old(self)@.has_id(rule_id),
            r matches Err(Error::RuleAlreadyExist(_)) <==> old(self)@.has_id(rule_id)
                && old(self)@.clashes(rule_id, old(self)@.activity(rule_id, false)),
            r matches Err(Error::RuleAlreadyExist(e)) ==> e == old(self)@.rules[old(
                self,
            )@.first_with(old(self)@.activity(rule_id, false))].0,
            !(r matches Err(Error::Internal(_))),
    {
        self.set_activity(rule_id, false)
    }

    fn set_activity(&mut self, rule_id: RuleID, is_active: bool) -> (r: Result<(), Error>)
        requires
            old(self)@.wf(),
        ensures
            final(self)@.wf(),
            final(self)@ == old(self)@.change(rule_id, old(self)@.activity(rule_id, is_active)),
            r is Ok <==> old(self)@.has_id(rule_id) && !old(self)@.clashes(
                rule_id,
                old(self)@.activity(rule_id, is_active),
            ),
            r matches Err(Error::RuleNotFound) <==> !old(self)@.has_id(rule_id),
            r matches Err(Error::RuleAlreadyExist(e)) ==> old(self)@.has_id(rule_id) && e == old(
                self,
            )@.rules[old(self)@.first_with(old(self)@.activity(rule_id, is_active))].0,
            !(r matches Err(Error::Internal(_))),
    {
        match self.position(rule_id) {
            Some(i) => {
                let rule = self.with_activity(i, is_active);
                proof {
                    if old(self)@.has_id(rule_id) && !old(self)@.clashes(rule_id, rule@) {
                        lemma_change_wf(old(self)@, rule_id, rule@);
                    }
                }
                self.change_at(i, rule_id, rule)
            },
            None => Err(Error::RuleNotFound),
        }
    }

    /// A copy of the table, in order of identity.
    pub fn get_rules(&self) -> (r: Vec<RuleWithID>)
        ensures
            r@.map_values(|x: RuleWithID| x@) == self@.rules,
            r@.len() == self@.rules.len(),
            forall|i: int| 0 <= i < r@.len() ==> (#[trigger] r@[i])@ == self@.rules[i],
    {
        let mut r: Vec<RuleWithID> = Vec::new();
        let mut i: usize = 0;
        while i < self.rules.len()
            invariant
                i <= self.rules@.len(),
                self@.rules.len() == self.rules@.len(),
                r@.len() == i,
                forall|j: int| 0 <= j < i ==> (#[trigger] r@[j])@ == self@.rules[j],
            decreases self.rules.len() - i,
        {
            let item = self.rules[i].clone();
            assert(item@ == self@.rules[i as int]);
            r.push(item);
            i += 1;
        }
        assert(r@.map_values(|x: RuleWithID| x@) =~= self@.rules);
        r
    }

    /// Hands out the queued notifications, oldest first, and empties the queue.
    pub fn take_notifications(&mut self) -> (r: Vec<Notification>)
        requires
            old(self)@.wf(),
        ensures
            final(self)@.wf(),
            r@.map_values(|n: Notification| n@) == old(self)@.outbox,
            r@.len() == old(self)@.outbox.len(),
            forall|i: int| 0 <= i < r@.len() ==> (#[trigger] r@[i])@ == old(self)@.outbox[i],
            final(self)@ == (StoreModel { outbox: Seq::empty(), ..old(self)@ }),
    {
        let mut taken: Vec<Notification> = Vec::new();
        std::mem::swap(&mut taken, &mut self.outbox);
        assert(self@.outbox =~= Seq::<NotificationView>::empty());
        assert(taken@.map_values(|n: Notification| n@).len() == taken@.len());
        assert forall|i: int| 0 <= i < taken@.len() implies (#[trigger] taken@[i])@ == old(
            self,
        )@.outbox[i] by {
            assert(taken@.map_values(|n: Notification| n@)[i] == taken@[i]@);
        }
        taken
    }
}

} // verus!
