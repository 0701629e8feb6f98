use super::{FragmentEntry, Gender};
use vstd::prelude::*;

verus! {

/// What an entity adapter tells of entities: who sees whom, who the viewer
/// is, genders, and names and whether they are proper names.
#[verifier::reject_recursive_types(Entity)]
pub struct EntityFacts<Entity> {
    pub can_see: spec_fn(Entity, Entity) -> bool,
    pub is_me: spec_fn(Entity) -> bool,
    pub gender: spec_fn(Entity) -> Gender,
    pub short_proper: spec_fn(Entity) -> bool,
    pub short_name: spec_fn(Entity) -> Seq<char>,
    pub long_proper: spec_fn(Entity) -> bool,
    pub long_name: spec_fn(Entity) -> Seq<char>,
}

/// What is shown to the player, in order: a finished line, a change of
/// color, and the end of a line's output.
pub enum Shown {
    Text(Seq<char>),
    Color((u8, u8, u8)),
    Done,
}

/// Everything shown to the player, in order.
pub type ShownLog = Seq<Shown>;

/// OutputQueue's interface to the game's components and the game's output
/// routines.
///
/// `Entity` is a `Copy` type identifying a player, character or thing. The
/// game implements this trait. Its answers about entities are those of its
/// `facts`, which showing output to the player does not change; what it
/// shows is recorded in `shown`, in order.
pub trait EntityAdapter<Entity: Copy> {
    /// What the adapter tells of entities. This and `shown` are models for
    /// the proofs; they are never run.
    spec fn facts(&self) -> EntityFacts<Entity>;

    /// What has been shown to the player so far.
    spec fn shown(&self) -> ShownLog;

    /// Can who see obj?
    fn can_see(&self, who: Entity, obj: Entity) -> (r: bool)
        ensures
            r == (self.facts().can_see)(who, obj),
    ;

    /// Is obj me?
    fn is_me(&self, obj: Entity) -> (r: bool)
        ensures
            r == (self.facts().is_me)(obj),
    ;

    /// Returns obj's gender (which is also plural & uncountable for things).
    fn gender(&self, obj: Entity) -> (r: Gender)
        ensures
            r == (self.facts().gender)(obj),
    ;

    /// Is obj a thing?
    fn is_thing(&self, obj: Entity) -> bool;

    /// Does obj have a proper name (ie Thomas)?
    fn has_short_proper(&self, obj: Entity) -> (r: bool)
        ensures
            r == (self.facts().short_proper)(obj),
    ;

    /// Appends the object's short name, typically a single word like "apple".
    fn append_short_name(&self, obj: Entity, s: &mut String)
        ensures
            final(s)@ == old(s)@ + (self.facts().short_name)(obj),
    ;

    /// Is the object's long name a proper name (ie Ada Lovecraft)?
    fn has_long_proper(&self, obj: Entity) -> (r: bool)
        ensures
            r == (self.facts().long_proper)(obj),
    ;

    /// Appends the object's long name, ie "red apple".
    fn append_long_name(&self, obj: Entity, s: &mut String)
        ensures
            final(s)@ == old(s)@ + (self.facts().long_name)(obj),
    ;

    /// Appends the object's short plural name, like "apples".
    fn append_short_plural_name(&self, obj: Entity, s: &mut String);

    /// Appends the object's long plural name, ie "red apples".
    fn append_long_plural_name(&self, obj: Entity, s: &mut String);

    /// Writes the given text to the player.
    fn write_text(&mut self, text: &str)
        ensures
            final(self).facts() == old(self).facts(),
            final(self).shown() == old(self).shown().push(Shown::Text(text@)),
    ;

    /// Sets the output color to the given color.
    fn set_color(&mut self, color: (u8, u8, u8))
        ensures
            final(self).facts() == old(self).facts(),
            final(self).shown() == old(self).shown().push(Shown::Color(color)),
    ;

    /// Called when all the text for the current line has been written with
    /// `write_text`. Restores the color to the default color.
    fn done(&mut self)
        ensures
            final(self).facts() == old(self).facts(),
            final(self).shown() == old(self).shown().push(Shown::Done),
    ;
}

/// OutputQueue's interface against queues: a first-in first-out queue of
/// fragments.
pub trait QueueAdapter<Entity>: Sized {
    /// The entries in the queue, oldest first.
    spec fn queue_view(&self) -> Seq<FragmentEntry<Entity>>;

    /// Pushes an entry to the end of the queue.
    fn push(&mut self, f: FragmentEntry<Entity>)
        ensures
            final(self).queue_view() == old(self).queue_view().push(f),
    ;

    /// Pops the next entry from the queue, or None if there are none.
    fn pop(&mut self) -> (r: Option<FragmentEntry<Entity>>)
        ensures
            old(self).queue_view().len() == 0 ==> r is None && final(self).queue_view()
                == old(self).queue_view(),
            old(self).queue_view().len() > 0 ==> r == Some(old(self).queue_view()[0])
                && final(self).queue_view() == old(self).queue_view().drop_first(),
    ;
}

/// The queue after pushing each of `fs` in turn, as `QueueAdapter::push`
/// leaves it.
pub open spec fn after_pushes<Entity>(
    q: Seq<FragmentEntry<Entity>>,
    fs: Seq<FragmentEntry<Entity>>,
) -> Seq<FragmentEntry<Entity>>
    decreases fs.len(),
{
    if fs.len() == 0 {
        q
    } else {
        after_pushes(q, fs.drop_last()).push(fs.last())
    }
}

/// The queue after `k` pops, as `QueueAdapter::pop` leaves it.
pub open spec fn after_pops<Entity>(q: Seq<FragmentEntry<Entity>>, k: nat) -> Seq<
    FragmentEntry<Entity>,
>
    decreases k,
{
    if k == 0 {
        q
    } else {
        after_pops(q, (k - 1) as nat).drop_first()
    }
}

/// First in, first out over many calls: pushing `fs` one by one onto an
/// empty queue, the `k`-th pop after that returns `fs[k]`, and after
/// `fs.len()` pops the queue is empty, so the next pop returns nothing.
pub proof fn lemma_fifo<Entity>(fs: Seq<FragmentEntry<Entity>>, k: nat)
    requires
        k <= fs.len(),
    ensures
        after_pops(after_pushes(Seq::empty(), fs), k) == fs.skip(k as int),
        k < fs.len() ==> after_pops(after_pushes(Seq::empty(), fs), k)[0] == fs[k as int],
        after_pops(after_pushes(Seq::empty(), fs), fs.len()).len() == 0,
{
    lemma_after_pushes(Seq::empty(), fs);
    assert(Seq::<FragmentEntry<Entity>>::empty() + fs =~= fs);
    lemma_after_pops(fs, k);
    lemma_after_pops(fs, fs.len());
}

proof fn lemma_after_pushes<Entity>(q: Seq<FragmentEntry<Entity>>, fs: Seq<FragmentEntry<Entity>>)
    ensures
        after_pushes(q, fs) == q + fs,
    decreases fs.len(),
{
    if fs.len() > 0 {
        lemma_after_pushes(q, fs.drop_last());
        assert((q + fs.drop_last()).push(fs.last()) =~= q + fs);
    }
}

proof fn lemma_after_pops<Entity>(q: Seq<FragmentEntry<Entity>>, k: nat)
    requires
        k <= q.len(),
    ensures
        after_pops(q, k) == q.skip(k as int),
    decreases k,
{
    if k == 0 {
        assert(q.skip(0) =~= q);
    } else {
        lemma_after_pops(q, (k - 1) as nat);
        assert(q.skip(k - 1).drop_first() =~= q.skip(k as int));
    }
}

} // verus!
