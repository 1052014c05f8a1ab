//! Problems that the platform reports while it is being set up: each problem
//! occupies a slot of its manager, holds a message while it is set, and frees
//! the message again when it is cleared.
use vstd::prelude::*;

verus! {

/// The slot that a problem occupies in its manager, once it has been set.
pub type ProblemId = Option<usize>;

/// The messages of the active problems, in slot order.
pub open spec fn active_messages(slots: Seq<Option<Seq<char>>>) -> Seq<Seq<char>>
    decreases slots.len(),
{
    if slots.len() == 0 {
        Seq::empty()
    } else {
        let rest = active_messages(slots.drop_last());
        match slots.last() {
            Some(m) => rest.push(m),
            None => rest,
        }
    }
}

/// How many slots hold a message.
pub open spec fn active_count(slots: Seq<Option<Seq<char>>>) -> nat {
    active_messages(slots).len()
}

/// At most one message per slot.
pub proof fn lemma_active_count_bounded(slots: Seq<Option<Seq<char>>>)
    ensures
        active_count(slots) <= slots.len(),
    decreases slots.len(),
{
    if slots.len() > 0 {
        lemma_active_count_bounded(slots.drop_last());
    }
}

/// Replacing one slot changes the count by whether that slot held a message before and after.
pub proof fn lemma_active_count_update(slots: Seq<Option<Seq<char>>>, i: int, v: Option<Seq<char>>)
    requires
        0 <= i < slots.len(),
    ensures
        active_count(slots.update(i, v)) + (if slots[i] is Some { 1int } else { 0int })
            == active_count(slots) + (if v is Some { 1int } else { 0int }),
    decreases slots.len(),
{
    let u = slots.update(i, v);
    if i == slots.len() - 1 {
        assert(u.drop_last() =~= slots.drop_last());
    } else {
        assert(u.drop_last() =~= slots.drop_last().update(i, v));
        lemma_active_count_update(slots.drop_last(), i, v);
    }
}

/// An empty slot adds no message.
pub proof fn lemma_active_messages_push_none(slots: Seq<Option<Seq<char>>>)
    ensures
        active_messages(slots.push(None)) == active_messages(slots),
{
    assert(slots.push(None).drop_last() =~= slots);
}

/// Where the slots hold no message, there are no active messages.
pub proof fn lemma_no_active_messages(slots: Seq<Option<Seq<char>>>)
    ensures
        active_count(slots) == 0 <==> forall|i: int| 0 <= i < slots.len() ==> slots[i] is None,
    decreases slots.len(),
{
    if slots.len() > 0 {
        lemma_no_active_messages(slots.drop_last());
        if active_count(slots) == 0 {
            assert forall|i: int| 0 <= i < slots.len() implies slots[i] is None by {
                if i < slots.len() - 1 {
                    assert(slots.drop_last()[i] == slots[i]);
                }
            }
        } else {
            if forall|i: int| 0 <= i < slots.len() ==> slots[i] is None {
                assert forall|i: int| 0 <= i < slots.drop_last().len() implies slots.drop_last()[i] is None by {
                    assert(slots.drop_last()[i] == slots[i]);
                }
                assert(slots[slots.len() - 1] is None);
            }
        }
    }
}

/// The slots of all the problems of a device, with the number of them that are active.
pub struct ProblemManager {
    problems: Vec<Option<String>>,
    active_cnt: usize,
}

impl View for ProblemManager {
    type V = Seq<Option<Seq<char>>>;

    closed spec fn view(&self) -> Seq<Option<Seq<char>>> {
        self.problems@.map_values(|p: Option<String>| match p {
            Some(s) => Some(s@),
            None => None,
        })
    }
}

impl ProblemManager {
    /// The count kept beside the slots is the number of slots that hold a message.
    pub closed spec fn wf(&self) -> bool {
        self.active_cnt == active_count(self@)
    }

    /// A manager with no slot.
    pub fn new() -> (r: Self)
        ensures
            r.wf(),
            r@ == Seq::<Option<Seq<char>>>::empty(),
    {
        let r = ProblemManager { problems: Vec::new(), active_cnt: 0 };
        assert(r@ =~= Seq::<Option<Seq<char>>>::empty());
        r
    }

    /// Whether no problem is active.
    pub fn is_empty(&self) -> (r: bool)
        requires
            self.wf(),
        ensures
            r == (active_count(self@) == 0),
            r == (forall|i: int| 0 <= i < self@.len() ==> self@[i] is None),
    {
        proof {
            lemma_no_active_messages(self@);
        }
        self.active_cnt == 0
    }

    /// Gives a slot a message: the slot `id` where there is one, else a new slot at the end.
    pub fn set(&mut self, id: ProblemId, message: String) -> (r: ProblemId)
        requires
            old(self).wf(),
            match id {
                Some(idx) => idx < old(self)@.len(),
                None => old(self)@.len() < usize::MAX,
            },
        ensures
            final(self).wf(),
            match id {
                Some(idx) => r == id && final(self)@ == old(self)@.update(idx as int, Some(message@)),
                None => r == Some(old(self)@.len() as usize) && final(self)@ == old(self)@.push(
                    Some(message@),
                ),
            },
    {
        let ghost before = self@;
        let slot_count = self.problems.len();
        proof {
            lemma_active_count_bounded(before);
        }
        match id {
            Some(idx) => {
                if self.problems[idx].is_none() {
                    proof {
                        lemma_active_count_update(before, idx as int, Some(message@));
                        lemma_active_count_bounded(before.update(idx as int, Some(message@)));
                        assert(before.len() == self.problems@.len());
                        assert(before[idx as int] is None);
                        assert(active_count(before.update(idx as int, Some(message@))) == active_count(before) + 1);
                        assert(self.active_cnt == active_count(before));
                    }
                    self.active_cnt = self.active_cnt + 1;
                } else {
                    proof {
                        lemma_active_count_update(before, idx as int, Some(message@));
                    }
                }
                self.problems.set(idx, Some(message));
                assert(self@ =~= before.update(idx as int, Some(message@)));
                id
            },
            None => {
                let new_id = self.problems.len();
                self.active_cnt = self.active_cnt + 1;
                let ghost m = message@;
                self.problems.push(Some(message));
                assert(self@ =~= before.push(Some(m)));
                assert(self@.drop_last() =~= before);
                Some(new_id)
            },
        }
    }

    /// Frees the message of slot `id`, if there is one.
    pub fn clear(&mut self, id: ProblemId)
        requires
            old(self).wf(),
            id matches Some(idx) ==> idx < old(self)@.len(),
        ensures
            final(self).wf(),
            match id {
                Some(idx) => final(self)@ == old(self)@.update(idx as int, None),
                None => final(self)@ == old(self)@,
            },
    {
        if let Some(idx) = id {
            let ghost before = self@;
            if self.problems[idx].is_some() {
                proof {
                    lemma_active_count_update(before, idx as int, None);
                }
                self.problems.set(idx, None);
                self.active_cnt = self.active_cnt - 1;
                assert(self@ =~= before.update(idx as int, None));
            } else {
                assert(before.update(idx as int, None) =~= before);
            }
        }
    }

    /// Walks the messages of the active problems, in slot order.
    pub fn iter(&self) -> (r: ProblemIter<'_>)
        ensures
            r.slots() == self@,
            r.position() == 0,
            r.remaining() == active_messages(self@),
    {
        let r = ProblemIter { problems: &self.problems, idx: 0 };
        assert(r.slots().skip(0) =~= r.slots());
        r
    }

    /// Same as `iter`.
    pub fn into_iter(&self) -> (r: ProblemIter<'_>)
        ensures
            r.slots() == self@,
            r.position() == 0,
            r.remaining() == active_messages(self@),
    {
        self.iter()
    }

    /// The number of slots, active or not.
    pub fn slot_count(&self) -> (r: usize)
        ensures
            r == self@.len(),
    {
        self.problems.len()
    }

    /// The message in slot `idx`.
    pub fn message_at(&self, idx: usize) -> (r: Option<&str>)
        requires
            idx < self@.len(),
        ensures
            match self@[idx as int] {
                Some(m) => r matches Some(s) && s@ == m,
                None => r is None,
            },
    {
        match &self.problems[idx] {
            Some(s) => Some(s.as_str()),
            None => None,
        }
    }
}

/// Clearing a slot that a set has just filled gives back the active messages of
/// before the set, when the slot was empty before: whether the set filled an
/// existing slot or appended one.
pub proof fn lemma_clear_undoes_set(slots: Seq<Option<Seq<char>>>, id: ProblemId, m: Seq<char>)
    requires
        id matches Some(i) ==> i < slots.len() && slots[i as int] is None,
    ensures
        match id {
            Some(i) => active_messages(slots.update(i as int, Some(m)).update(i as int, None))
                == active_messages(slots),
            None => active_messages(slots.push(Some(m)).update(slots.len() as int, None))
                == active_messages(slots),
        },
{
    match id {
        Some(i) => {
            assert(slots.update(i as int, Some(m)).update(i as int, None) =~= slots);
        },
        None => {
            assert(slots.push(Some(m)).update(slots.len() as int, None) =~= slots.push(None));
            lemma_active_messages_push_none(slots);
        },
    }
}

/// After a set, some problem is active.
pub proof fn lemma_set_makes_active(slots: Seq<Option<Seq<char>>>, i: int, m: Seq<char>)
    requires
        0 <= i < slots.len(),
    ensures
        active_count(slots.update(i, Some(m))) > 0,
{
    lemma_no_active_messages(slots.update(i, Some(m)));
    assert(slots.update(i, Some(m))[i] is Some);
}

/// One problem that can be set with a message and cleared again; while it is
/// set it owns a slot of its manager.
pub struct Problem {
    id: ProblemId,
    is_clear: bool,
}

/// A problem is set exactly when the last of the `set` and `clear` calls made on it
/// since `new` was a `set`, and clear when none was made: `states[k]` is the problem
/// after `k` calls, and `sets[k]` says whether call `k` was a `set` (else a `clear`).
pub proof fn lemma_last_call_decides(states: Seq<Problem>, sets: Seq<bool>)
    requires
        states.len() == sets.len() + 1,
        states[0].clear_state(),
        forall|k: int|
            0 <= k < sets.len() ==> (#[trigger] sets[k] ==> !states[k + 1].clear_state()) && (!sets[k]
                ==> states[k + 1].clear_state()),
    ensures
        !states.last().clear_state() <==> (sets.len() > 0 && sets.last()),
{
    if sets.len() > 0 {
        let k = sets.len() - 1;
        assert(sets[k] ==> !states[k + 1].clear_state());
    }
}

impl Problem {
    /// The slot that the problem owns, once it has been set.
    pub closed spec fn id(&self) -> ProblemId {
        self.id
    }

    /// Whether the problem is clear.
    pub closed spec fn clear_state(&self) -> bool {
        self.is_clear
    }

    /// The problem's slot, if it has one, lies within the manager.
    pub open spec fn fits(&self, manager: &ProblemManager) -> bool {
        self.id() matches Some(i) ==> i < manager@.len()
    }

    /// A clear problem without a slot.
    pub fn new() -> (r: Self)
        ensures
            r.id() is None,
            r.clear_state(),
    {
        Problem { id: None, is_clear: true }
    }

    /// Reports the problem with a message, in its slot, or in a new slot if it has none yet.
    pub fn set(&mut self, manager: &mut ProblemManager, message: &str)
        requires
            old(manager).wf(),
            old(self).fits(old(manager)),
            old(self).id() is None ==> old(manager)@.len() < usize::MAX,
        ensures
            final(manager).wf(),
            !final(self).clear_state(),
            final(self).fits(final(manager)),
            match old(self).id() {
                Some(i) => final(self).id() == old(self).id()
                    && final(manager)@ == old(manager)@.update(i as int, Some(message@)),
                None => final(self).id() == Some(old(manager)@.len() as usize)
                    && final(manager)@ == old(manager)@.push(Some(message@)),
            },
    {
        self.id = manager.set(self.id, message.to_owned());
        self.is_clear = false;
    }

    /// Withdraws the problem: its slot, if it has one, no longer holds a message.
    pub fn clear(&mut self, manager: &mut ProblemManager)
        requires
            old(manager).wf(),
            old(self).fits(old(manager)),
        ensures
            final(manager).wf(),
            final(self).clear_state(),
            final(self).id() == old(self).id(),
            final(self).fits(final(manager)),
            match old(self).id() {
                Some(i) => final(manager)@ == old(manager)@.update(i as int, None),
                None => final(manager)@ == old(manager)@,
            },
    {
        manager.clear(self.id);
        self.is_clear = true;
    }

    /// Whether the problem is clear.
    pub fn is_clear(&self) -> (r: bool)
        ensures
            r == self.clear_state(),
    {
        self.is_clear
    }

    /// Whether the problem is set.
    pub fn is_set(&self) -> (r: bool)
        ensures
            r == !self.clear_state(),
    {
        !self.is_clear
    }

    /// The text shown for the problem: nothing while it is clear, else the message in its
    /// slot, or a note that the slot or the slot number is missing.
    pub fn message(&self, manager: &ProblemManager) -> (r: String)
        requires
            self.fits(manager),
        ensures
            r@ == (if self.clear_state() {
                Seq::<char>::empty()
            } else {
                match self.id() {
                    Some(i) => match manager@[i as int] {
                        Some(m) => m,
                        None => "No message"@,
                    },
                    None => "No message ID"@,
                }
            }),
    {
        if self.is_clear {
            return String::new();
        }
        match self.id {
            Some(i) => match manager.message_at(i) {
                Some(m) => m.to_owned(),
                None => "No message".to_owned(),
            },
            None => "No message ID".to_owned(),
        }
    }
}

/// A walk over the active messages of a manager.
pub struct ProblemIter<'a> {
    problems: &'a Vec<Option<String>>,
    idx: usize,
}

impl<'a> ProblemIter<'a> {
    /// The problem slots that the iterator walks.
    pub closed spec fn slots(&self) -> Seq<Option<Seq<char>>> {
        self.problems@.map_values(|p: Option<String>| match p {
            Some(s) => Some(s@),
            None => None,
        })
    }

    /// The slot that the iterator looks at next.
    pub closed spec fn position(&self) -> nat {
        self.idx as nat
    }

    /// The messages that the walk has still to give.
    pub open spec fn remaining(&self) -> Seq<Seq<char>> {
        active_messages(self.slots().skip(self.position() as int))
    }

    /// The next active message, if any is left.
    pub fn next(&mut self) -> (r: Option<&'a str>)
        requires
            old(self).position() <= old(self).slots().len(),
        ensures
            final(self).slots() == old(self).slots(),
            final(self).position() <= final(self).slots().len(),
            match r {
                Some(s) => old(self).remaining().len() > 0 && s@ == old(self).remaining()[0]
                    && final(self).remaining() == old(self).remaining().drop_first()
                    && final(self).position() > old(self).position(),
                None => old(self).remaining().len() == 0 && final(self).remaining().len() == 0,
            },
    {
        let ghost slots = self.slots();
        proof {
            lemma_active_messages_first(slots, self.idx as int);
        }
        while self.idx < self.problems.len()
            invariant
                self.problems == old(self).problems,
                slots == self.slots(),
                old(self).idx <= self.idx <= slots.len(),
                forall|j: int| old(self).idx <= j < self.idx ==> slots[j] is None,
                active_messages(slots.skip(old(self).idx as int)) == active_messages(
                    slots.skip(self.idx as int),
                ),
            decreases slots.len() - self.idx,
        {
            let i = self.idx;
            self.idx = self.idx + 1;
            proof {
                lemma_active_messages_first(slots, i as int);
            }
            match &self.problems[i] {
                Some(s) => {
                    return Some(s.as_str());
                },
                None => {},
            }
        }
        proof {
            assert(slots.skip(self.idx as int) =~= Seq::<Option<Seq<char>>>::empty());
        }
        None
    }

    /// All the messages that the walk has still to give, in order.
    pub fn collect(self) -> (r: Vec<&'a str>)
        requires
            self.position() <= self.slots().len(),
        ensures
            str_views(r@) == self.remaining(),
    {
        let mut it = self;
        let mut out: Vec<&'a str> = Vec::new();
        let ghost all = it.remaining();
        assert(all == self.remaining());
        loop
            invariant
                it.position() <= it.slots().len(),
                all == str_views(out@) + it.remaining(),
                all == self.remaining(),
            decreases it.slots().len() - it.position(),
        {
            let ghost before = it.remaining();
            let ghost done = str_views(out@);
            match it.next() {
                Some(s) => {
                    out.push(s);
                    assert(str_views(out@) =~= done.push(s@));
                    assert(before =~= seq![s@] + it.remaining());
                    assert(all =~= str_views(out@) + it.remaining());
                },
                None => {
                    assert(before.len() == 0);
                    assert(all =~= done + before);
                    assert(all =~= str_views(out@));
                    return out;
                },
            }
        }
    }
}

/// The characters of each string of a sequence.
pub open spec fn str_views(v: Seq<&str>) -> Seq<Seq<char>> {
    v.map_values(|s: &str| s.view())
}

/// Splitting off the first slot of a suffix.
proof fn lemma_active_messages_first(slots: Seq<Option<Seq<char>>>, i: int)
    requires
        0 <= i <= slots.len(),
    ensures
        i < slots.len() ==> active_messages(slots.skip(i)) == match slots[i] {
            Some(m) => seq![m] + active_messages(slots.skip(i + 1)),
            None => active_messages(slots.skip(i + 1)),
        },
{
    if i < slots.len() {
        lemma_active_messages_prepend(slots[i], slots.skip(i + 1));
        assert(seq![slots[i]] + slots.skip(i + 1) =~= slots.skip(i));
    }
}

/// The active messages of a sequence that starts with one more slot.
proof fn lemma_active_messages_prepend(first: Option<Seq<char>>, rest: Seq<Option<Seq<char>>>)
    ensures
        active_messages(seq![first] + rest) == match first {
            Some(m) => seq![m] + active_messages(rest),
            None => active_messages(rest),
        },
    decreases rest.len(),
{
    let s = seq![first] + rest;
    let e = Seq::<Option<Seq<char>>>::empty();
    assert(active_messages(e) =~= Seq::<Seq<char>>::empty());
    if rest.len() == 0 {
        assert(s.drop_last() =~= e);
        assert(s.last() == first);
        assert(rest =~= e);
        match first {
            Some(m) => assert(active_messages(s) =~= seq![m] + active_messages(rest)),
            None => assert(active_messages(s) =~= active_messages(rest)),
        }
    } else {
        assert(s.drop_last() =~= seq![first] + rest.drop_last());
        lemma_active_messages_prepend(first, rest.drop_last());
        assert(s.last() == rest.last());
        let inner = active_messages(rest.drop_last());
        match first {
            Some(m) => {
                match rest.last() {
                    Some(x) => {
                        assert(active_messages(s) =~= (seq![m] + inner).push(x));
                        assert((seq![m] + inner).push(x) =~= seq![m] + inner.push(x));
                    },
                    None => {
                        assert(active_messages(s) =~= seq![m] + inner);
                    },
                }
            },
            None => {
                match rest.last() {
                    Some(x) => {
                        assert(active_messages(s) =~= inner.push(x));
                    },
                    None => {
                        assert(active_messages(s) =~= inner);
                    },
                }
            },
        }
    }
}

} // verus!
