//! Listeners of events: a registry that hands each event to the listeners that are
//! still alive and forgets those that are gone. Registered listeners are held by a
//! link that does not keep them alive.
use vstd::prelude::*;

verus! {

/// Something that wants to hear of events of type `T`.
pub trait Listener<T> {
    fn on_event(&self, event: &T);
}

/// A link to a registered listener that does not keep it alive. An implementation
/// says which object a link leads to (`links_to`) and answers `alive_and_not` by it;
/// the weak reference itself lives with the implementation.
pub trait ListenerLink<T> {
    type Target: ?Sized;

    /// Whether the link leads to `target` itself (the same object, not an equal one).
    spec fn links_to(&self, target: &Self::Target) -> bool;

    /// Whether `alive` is what a look at the listener can find: `true` at a moment
    /// while it lives, `false` once it is gone. Whether it lives changes outside the
    /// link, so this is a relation, not the listener's state.
    spec fn liveness_reading(&self, alive: bool) -> bool;

    /// Hands the event to the listener if it is still alive; returns whether it was.
    fn deliver(&self, event: &T) -> (r: bool)
        ensures
            self.liveness_reading(r),
    ;

    /// Whether the listener is still alive and is not `target`.
    fn alive_and_not(&self, target: &Self::Target) -> (r: bool)
        ensures
            exists|alive: bool| self.liveness_reading(alive) && r == (alive && !self.links_to(target)),
    ;
}

/// Whether `keep` is an answer that `alive_and_not(target)` can give on a link: the
/// listener found alive and not `target`.
pub open spec fn keeps<T, W: ListenerLink<T>>(link: W, target: &W::Target, keep: bool) -> bool {
    exists|alive: bool| link.liveness_reading(alive) && keep == (alive && !link.links_to(target))
}

/// The entries whose mark is set, in their order.
pub open spec fn kept<W>(entries: Seq<W>, marks: Seq<bool>) -> Seq<W>
    recommends
        entries.len() == marks.len(),
    decreases entries.len(),
{
    if entries.len() == 0 || marks.len() == 0 {
        Seq::empty()
    } else {
        let rest = kept(entries.drop_last(), marks.drop_last());
        if marks.last() {
            rest.push(entries.last())
        } else {
            rest
        }
    }
}

/// How many marks are set.
pub open spec fn marked(marks: Seq<bool>) -> nat
    decreases marks.len(),
{
    if marks.len() == 0 {
        0
    } else {
        marked(marks.drop_last()) + if marks.last() {
            1nat
        } else {
            0nat
        }
    }
}

proof fn lemma_kept_len<W>(entries: Seq<W>, marks: Seq<bool>)
    requires
        entries.len() == marks.len(),
    ensures
        kept(entries, marks).len() == marked(marks),
        marked(marks) <= marks.len(),
    decreases entries.len(),
{
    if entries.len() > 0 {
        lemma_kept_len(entries.drop_last(), marks.drop_last());
    }
}

/// Each kept entry is an entry whose mark is set.
proof fn lemma_kept_marked<W>(entries: Seq<W>, marks: Seq<bool>, k: int)
    requires
        entries.len() == marks.len(),
        0 <= k < kept(entries, marks).len(),
    ensures
        exists|j: int| 0 <= j < entries.len() && marks[j] && kept(entries, marks)[k] == entries[j],
    decreases entries.len(),
{
    let rest = kept(entries.drop_last(), marks.drop_last());
    lemma_kept_len(entries.drop_last(), marks.drop_last());
    if marks.last() && k == rest.len() {
        assert(marks[entries.len() - 1] && kept(entries, marks)[k] == entries[entries.len() - 1]);
    } else {
        lemma_kept_marked(entries.drop_last(), marks.drop_last(), k);
        let j = choose|j: int|
            0 <= j < entries.drop_last().len() && marks.drop_last()[j] && rest[k] == entries.drop_last()[j];
        assert(marks[j] && kept(entries, marks)[k] == entries[j]);
    }
}

/// Keeps the entries whose mark is set.
fn retain_marked<W>(entries: Vec<W>, marks: &Vec<bool>) -> (r: Vec<W>)
    requires
        entries@.len() == marks@.len(),
    ensures
        r@ == kept(entries@, marks@),
{
    let ghost all = entries@;
    let mut out: Vec<W> = Vec::new();
    let mut rest = entries;
    let n = marks.len();
    let mut i: usize = 0;
    while i < n
        invariant
            n == marks@.len(),
            n == all.len(),
            i <= n,
            rest@ == all.skip(i as int),
            out@ == kept(all.take(i as int), marks@.take(i as int)),
        decreases n - i,
    {
        let item = rest.remove(0);
        assert(item == all[i as int]);
        assert(all.take(i + 1).drop_last() =~= all.take(i as int));
        assert(marks@.take(i + 1).drop_last() =~= marks@.take(i as int));
        if marks[i] {
            out.push(item);
        }
        i = i + 1;
    }
    assert(all.take(n as int) =~= all);
    assert(marks@.take(n as int) =~= marks@);
    out
}

/// The listeners of one kind of event.
pub struct ListenerManager<T, W: ListenerLink<T>> {
    listeners: Vec<W>,
    _event: std::marker::PhantomData<T>,
}

impl<T, W: ListenerLink<T>> ListenerManager<T, W> {
    /// The registered links, oldest first.
    pub closed spec fn links(&self) -> Seq<W> {
        self.listeners@
    }

    /// A registry with no listener.
    pub fn new() -> (r: Self)
        ensures
            r.links() == Seq::<W>::empty(),
    {
        ListenerManager { listeners: Vec::new(), _event: std::marker::PhantomData }
    }

    /// Registers a listener by its link.
    pub fn add_listener(&mut self, link: W)
        ensures
            final(self).links() == old(self).links().push(link),
    {
        self.listeners.push(link);
    }

    /// Keeps the links whose mark is set, in their order: after an event, those whose
    /// listener is still alive.
    pub fn retain(&mut self, marks: &Vec<bool>)
        requires
            marks@.len() == old(self).links().len(),
        ensures
            final(self).links() == kept(old(self).links(), marks@),
    {
        let mut listeners: Vec<W> = Vec::new();
        std::mem::swap(&mut listeners, &mut self.listeners);
        self.listeners = retain_marked(listeners, marks);
    }

    /// Unregisters a listener, and with it every listener that is gone; the others keep
    /// their order. No link to the listener is left.
    pub fn remove_listener(&mut self, target: &W::Target)
        ensures
            exists|marks: Seq<bool>|
                marks.len() == old(self).links().len() && final(self).links() == kept(
                    old(self).links(),
                    marks,
                ) && forall|i: int|
                    0 <= i < marks.len() ==> #[trigger] keeps::<T, W>(old(self).links()[i], target, marks[i]),
            forall|i: int|
                0 <= i < final(self).links().len() ==> !(#[trigger] final(self).links()[i]).links_to(target),
    {
        let mut marks: Vec<bool> = Vec::new();
        let mut i: usize = 0;
        while i < self.listeners.len()
            invariant
                self.listeners@ == old(self).listeners@,
                i <= self.listeners@.len(),
                marks@.len() == i,
                forall|j: int| 0 <= j < i ==> #[trigger] keeps::<T, W>(self.listeners@[j], target, marks@[j]),
            decreases self.listeners@.len() - i,
        {
            let keep = self.listeners[i].alive_and_not(target);
            assert(keeps::<T, W>(self.listeners@[i as int], target, keep));
            let ghost before = marks@;
            marks.push(keep);
            assert forall|j: int| 0 <= j < i + 1 implies #[trigger] keeps::<T, W>(self.listeners@[j], target, marks@[j]) by {
                if j < i {
                    assert(marks@[j] == before[j]);
                }
            }
            i = i + 1;
        }
        let ghost ms = marks@;
        self.retain(&marks);
        assert forall|i: int| 0 <= i < self.links().len() implies !(#[trigger] self.links()[i]).links_to(target) by {
            lemma_kept_marked(old(self).links(), ms, i);
            let j = choose|j: int| 0 <= j < old(self).links().len() && ms[j] && kept(old(self).links(), ms)[i]
                == old(self).links()[j];
            assert(keeps::<T, W>(old(self).links()[j], target, ms[j]));
        }
        assert(ms.len() == old(self).links().len() && self.links() == kept(old(self).links(), ms) && forall|i: int|
            0 <= i < ms.len() ==> #[trigger] keeps::<T, W>(old(self).links()[i], target, ms[i]));
    }

    /// Hands an event to each listener that is still alive, oldest first, and forgets
    /// those that are gone; returns how many heard it. `marks[i]` is what delivering to
    /// link `i` found.
    pub fn emit(&mut self, event: &T) -> (r: usize)
        ensures
            exists|marks: Seq<bool>|
                marks.len() == old(self).links().len() && final(self).links() == kept(
                    old(self).links(),
                    marks,
                ) && r == marked(marks) && forall|i: int|
                    0 <= i < marks.len() ==> old(self).links()[i].liveness_reading(#[trigger] marks[i]),
    {
        let mut marks: Vec<bool> = Vec::new();
        let mut cnt: usize = 0;
        let mut i: usize = 0;
        while i < self.listeners.len()
            invariant
                self.listeners@ == old(self).listeners@,
                i <= self.listeners@.len(),
                marks@.len() == i,
                cnt == marked(marks@),
                forall|j: int| 0 <= j < i ==> self.listeners@[j].liveness_reading(#[trigger] marks@[j]),
            decreases self.listeners@.len() - i,
        {
            let alive = self.listeners[i].deliver(event);
            proof {
                lemma_kept_len(marks@, marks@);
            }
            let ghost before = marks@;
            marks.push(alive);
            assert(marks@.drop_last() =~= before);
            if alive {
                cnt = cnt + 1;
            }
            i = i + 1;
        }
        self.retain(&marks);
        assert(marks@.len() == old(self).links().len() && self.links() == kept(old(self).links(), marks@)
            && cnt == marked(marks@) && forall|i: int|
                0 <= i < marks@.len() ==> old(self).links()[i].liveness_reading(#[trigger] marks@[i]));
        cnt
    }
}

} // verus!
