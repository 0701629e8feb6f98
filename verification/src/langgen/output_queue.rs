use super::output_helper::{
    add_verb_end_s, is_singular, is_uppercase_char, needs_dot, spec_add_verb_end_s,
    spec_is_singular, spec_is_vowel, spec_needs_dot, string_push, upper_first,
    uppercase_first_char,
};
use super::output_helper::{char_is_uppercase, last_char};
use super::traits::{EntityAdapter, EntityFacts, QueueAdapter, Shown};
use super::{Fragment, FragmentEntry, Gender};
use std::marker::PhantomData;
use vstd::prelude::*;

verus! {

/// The state of the line being written: the text so far, whether a space
/// goes before the next word, and whether capitalization of the next word
/// is suppressed.
pub type TextState = (Seq<char>, bool, bool);

/// Whether a space is left out before `t`: it starts with ',' or '"'.
pub open spec fn no_space_before(t: Seq<char>) -> bool {
    t.len() > 0 && (t[0] == ',' || t[0] == '"')
}

/// Whether a space is left out after `t`: it ends with '"'.
pub open spec fn no_space_after(t: Seq<char>) -> bool {
    t.len() > 0 && t.last() == '"'
}

/// Adding the text `t` to the line: a space first unless suppressed, the
/// first word of a sentence capitalized.
pub open spec fn add_text(st: TextState, t: Seq<char>) -> TextState {
    let spaced = if st.1 && !no_space_before(t) {
        st.0.push(' ')
    } else {
        st.0
    };
    let out = if !st.2 {
        spaced + upper_first(t)
    } else {
        spaced + t
    };
    (out, !no_space_after(t), true)
}

/// Adding the texts `ts` one after the other.
pub open spec fn add_texts(st: TextState, ts: Seq<Seq<char>>) -> TextState
    decreases ts.len(),
{
    if ts.len() == 0 {
        st
    } else {
        add_text(add_texts(st, ts.drop_last()), ts.last())
    }
}

/// The words that "a/an <name>" becomes.
pub open spec fn a_word_texts(
    is_me: bool,
    can_see: bool,
    singular: bool,
    name: Seq<char>,
    is_prop: bool,
) -> Seq<Seq<char>> {
    if is_me {
        seq!["you"@]
    } else if can_see {
        if !is_prop && singular {
            let article = if name.len() > 0 && spec_is_vowel(name[0]) {
                "an"@
            } else {
                "a"@
            };
            seq![article, name]
        } else if !is_prop {
            seq!["some"@, name]
        } else {
            seq![name]
        }
    } else if is_prop {
        seq!["someone"@]
    } else {
        seq!["something"@]
    }
}

/// The words that "the <name>" becomes.
pub open spec fn the_word_texts(is_me: bool, can_see: bool, name: Seq<char>, is_proper: bool) -> Seq<
    Seq<char>,
> {
    if is_me {
        seq!["you"@]
    } else if can_see {
        if !is_proper {
            seq!["the"@, name]
        } else {
            seq![name]
        }
    } else if is_proper {
        seq!["someone"@]
    } else {
        seq!["something"@]
    }
}

/// The possessive ending after a name that ends with `ch`.
pub open spec fn possessive_ending(ch: char) -> Seq<char> {
    if ch == 's' || ch == 'S' {
        "'"@
    } else if is_uppercase_char(ch) {
        "'S"@
    } else {
        "'s"@
    }
}

/// The line after a possessive: `mine` ("your" or "yours") when the
/// object is the viewer, "the <name>'s" (or "<ProperName>'s") when the
/// viewer sees it, else "someone's" or "something's". Nothing is added for a
/// seen object with an empty name.
pub open spec fn thes_state(
    st: TextState,
    is_me_obj: bool,
    can_see: bool,
    name: Seq<char>,
    is_proper: bool,
    mine: Seq<char>,
) -> TextState {
    if is_me_obj {
        add_text(st, mine)
    } else if can_see {
        if name.len() > 0 {
            let s1 = add_texts(st, the_word_texts(false, true, name, is_proper));
            add_text((s1.0, false, s1.2), possessive_ending(name.last()))
        } else {
            st
        }
    } else if is_proper {
        add_text(st, "someone's"@)
    } else {
        add_text(st, "something's"@)
    }
}

/// The words that the bare word for an object becomes: "you", its name,
/// "someone" or "something".
pub open spec fn word_texts(is_me: bool, can_see: bool, name: Seq<char>, is_proper: bool) -> Seq<
    Seq<char>,
> {
    if is_me {
        seq!["you"@]
    } else if can_see {
        seq![name]
    } else if is_proper {
        seq!["someone"@]
    } else {
        seq!["something"@]
    }
}

/// The possessive pronoun of an owner: "your" for the viewer, else by the
/// owner's gender.
pub open spec fn possessive_pronoun(is_me: bool, gender: Gender) -> Seq<char> {
    if is_me {
        "your"@
    } else {
        match gender {
            Gender::Male => "his"@,
            Gender::Female => "her"@,
            Gender::Plural => "their"@,
            Gender::Neuter | Gender::Uncountable => "its"@,
        }
    }
}

/// The words that "<owner's pronoun> <name>" becomes: the owner's pronoun
/// and the object's name when the viewer sees the object, else what "a/an
/// <name>" becomes for an unseen object.
pub open spec fn my_texts(
    is_me_owner: bool,
    owner_gender: Gender,
    is_me_obj: bool,
    can_see_obj: bool,
    singular_obj: bool,
    name: Seq<char>,
    is_prop: bool,
) -> Seq<Seq<char>> {
    if can_see_obj {
        seq![possessive_pronoun(is_me_owner, owner_gender), name]
    } else {
        a_word_texts(is_me_obj, false, singular_obj, name, is_prop)
    }
}

/// A finished line is the text with a dot added only where one is owed:
/// a line already ending with '.', '?', '!', ':', ';' or '"' is kept as it
/// is, as is any line whose dot is suppressed or that is empty; any other
/// line gets one dot at its end.
pub proof fn lemma_finished_line_ends_once(out: Seq<char>, supress_dot: bool)
    ensures
        (supress_dot || out.len() == 0 || out.last() == '.' || out.last() == '?' || out.last()
            == '!' || out.last() == ':' || out.last() == ';' || out.last() == '"') ==> finished_line(
            out,
            supress_dot,
        ) == out,
        !(supress_dot || out.len() == 0 || out.last() == '.' || out.last() == '?' || out.last()
            == '!' || out.last() == ':' || out.last() == ';' || out.last() == '"') ==> finished_line(
            out,
            supress_dot,
        ) == out.push('.'),
{
}

/// A seen, singular thing without a proper name is written with "an"
/// before it when its name starts with a vowel letter (a, e, i, o or u, in
/// either case) and with "a" otherwise, and then its name.
pub proof fn lemma_an_before_vowels(name: Seq<char>)
    ensures
        ({
            let c = name[0];
            let vowel = name.len() > 0 && (c == 'a' || c == 'e' || c == 'i' || c == 'o' || c == 'u'
                || c == 'A' || c == 'E' || c == 'I' || c == 'O' || c == 'U');
            a_word_texts(false, true, true, name, false) == seq![
                if vowel {
                    "an"@
                } else {
                    "a"@
                },
                name,
            ]
        }),
{
}

/// Whether the singular or the plural form is used: the viewer is spoken to
/// in the plural, what the viewer can't see in the singular.
pub open spec fn uses_plural(gender: Gender, is_me: bool, can_see: bool) -> bool {
    is_me || (can_see && gender is Plural)
}

/// The line after a verb: written after a space (unless suppressed),
/// capitalized when it starts the sentence, and put in the third person
/// singular when the subject is singular and not the viewer.
pub open spec fn verb_state(st: TextState, gender: Gender, is_me: bool, verb: Seq<char>) -> TextState {
    let spaced = if st.1 {
        st.0.push(' ')
    } else {
        st.0
    };
    let out = if st.2 {
        spaced + verb
    } else {
        spaced + upper_first(verb)
    };
    let out = if spec_is_singular(gender) && !is_me {
        spec_add_verb_end_s(out)
    } else {
        out
    };
    (out, true, true)
}

/// The finished line: a dot is added unless suppressed or already ended by
/// a punctuation mark.
pub open spec fn finished_line(out: Seq<char>, supress_dot: bool) -> Seq<char> {
    if !supress_dot && spec_needs_dot(out) {
        out.push('.')
    } else {
        out
    }
}

/// The rendering state between fragments: the line being written, and
/// whether its final dot is suppressed.
pub type RenderState = (TextState, bool);

/// What one fragment does when it is processed for the viewer `who` with
/// the adapter's `facts`: the rendering state after it, and what it shows.
/// Words about an entity depend on whether it is the viewer, whether the
/// viewer sees it, its gender and its name; an end of line shows the
/// finished line and ends it.
pub open spec fn render_fragment<Entity>(
    st: RenderState,
    f: Fragment<Entity>,
    who: Entity,
    facts: EntityFacts<Entity>,
) -> (RenderState, Seq<Shown>) {
    let (ts, dot) = st;
    match f {
        Fragment::A(obj) => ((add_texts(ts, a_word_texts(
            (facts.is_me)(obj),
            (facts.can_see)(who, obj),
            spec_is_singular((facts.gender)(obj)),
            (facts.short_name)(obj),
            (facts.short_proper)(obj),
        )), dot), Seq::empty()),
        Fragment::A_(obj) => ((add_texts(ts, a_word_texts(
            (facts.is_me)(obj),
            (facts.can_see)(who, obj),
            spec_is_singular((facts.gender)(obj)),
            (facts.long_name)(obj),
            (facts.long_proper)(obj),
        )), dot), Seq::empty()),
        Fragment::The(obj) => ((add_texts(ts, the_word_texts(
            (facts.is_me)(obj),
            (facts.can_see)(who, obj),
            (facts.short_name)(obj),
            (facts.short_proper)(obj),
        )), dot), Seq::empty()),
        Fragment::The_(obj) => ((add_texts(ts, the_word_texts(
            (facts.is_me)(obj),
            (facts.can_see)(who, obj),
            (facts.long_name)(obj),
            (facts.long_proper)(obj),
        )), dot), Seq::empty()),
        Fragment::Thes(obj) => ((thes_state(
            ts,
            (facts.is_me)(obj),
            (facts.can_see)(who, obj),
            (facts.short_name)(obj),
            (facts.short_proper)(obj),
            "your"@,
        ), dot), Seq::empty()),
        Fragment::Thes_(obj) => ((thes_state(
            ts,
            (facts.is_me)(obj),
            (facts.can_see)(who, obj),
            (facts.long_name)(obj),
            (facts.long_proper)(obj),
            "your"@,
        ), dot), Seq::empty()),
        Fragment::Thess(obj) => ((thes_state(
            ts,
            (facts.is_me)(obj),
            (facts.can_see)(who, obj),
            (facts.short_name)(obj),
            (facts.short_proper)(obj),
            "yours"@,
        ), dot), Seq::empty()),
        Fragment::Thess_(obj) => ((thes_state(
            ts,
            (facts.is_me)(obj),
            (facts.can_see)(who, obj),
            (facts.long_name)(obj),
            (facts.long_proper)(obj),
            "yours"@,
        ), dot), Seq::empty()),
        Fragment::My(owner, obj) => ((add_texts(ts, my_texts(
            (facts.is_me)(owner),
            (facts.gender)(owner),
            (facts.is_me)(obj),
            (facts.can_see)(who, obj),
            spec_is_singular((facts.gender)(obj)),
            (facts.short_name)(obj),
            (facts.short_proper)(obj),
        )), dot), Seq::empty()),
        Fragment::My_(owner, obj) => ((add_texts(ts, my_texts(
            (facts.is_me)(owner),
            (facts.gender)(owner),
            (facts.is_me)(obj),
            (facts.can_see)(who, obj),
            spec_is_singular((facts.gender)(obj)),
            (facts.long_name)(obj),
            (facts.long_proper)(obj),
        )), dot), Seq::empty()),
        Fragment::Word(obj) => ((add_texts(ts, word_texts(
            (facts.is_me)(obj),
            (facts.can_see)(who, obj),
            (facts.short_name)(obj),
            (facts.short_proper)(obj),
        )), dot), Seq::empty()),
        Fragment::Word_(obj) => ((add_texts(ts, word_texts(
            (facts.is_me)(obj),
            (facts.can_see)(who, obj),
            (facts.long_name)(obj),
            (facts.long_proper)(obj),
        )), dot), Seq::empty()),
        Fragment::Is(obj) => ((add_text(
            ts,
            if uses_plural((facts.gender)(obj), (facts.is_me)(obj), (facts.can_see)(who, obj)) {
                "are"@
            } else {
                "is"@
            },
        ), dot), Seq::empty()),
        Fragment::Has(obj) => ((add_text(
            ts,
            if uses_plural((facts.gender)(obj), (facts.is_me)(obj), (facts.can_see)(who, obj)) {
                "have"@
            } else {
                "has"@
            },
        ), dot), Seq::empty()),
        Fragment::TextRef(t) => ((add_text(ts, t@), dot), Seq::empty()),
        Fragment::Text(t) => ((add_text(ts, t@), dot), Seq::empty()),
        Fragment::VerbRef(subject, verb) => ((verb_state(
            ts,
            (facts.gender)(subject),
            (facts.is_me)(subject),
            verb@,
        ), dot), Seq::empty()),
        Fragment::VerbString(subject, verb) => ((verb_state(
            ts,
            (facts.gender)(subject),
            (facts.is_me)(subject),
            verb@,
        ), dot), Seq::empty()),
        Fragment::Capitalize(c) => (((ts.0, ts.1, !c), dot), Seq::empty()),
        Fragment::SupressDot(d) => ((ts, d), Seq::empty()),
        Fragment::SupressSpace(sp) => (((ts.0, !sp, ts.2), dot), Seq::empty()),
        Fragment::Color(rgb) => (st, seq![Shown::Color(rgb)]),
        Fragment::EndOfLine => (
            ((Seq::empty(), false, false), false),
            seq![Shown::Text(finished_line(ts.0, dot)), Shown::Done],
        ),
    }
}

/// What processing the fragments `fs` in order does: the rendering state
/// after them, and everything they show.
pub open spec fn render<Entity>(
    st: RenderState,
    fs: Seq<FragmentEntry<Entity>>,
    who: Entity,
    facts: EntityFacts<Entity>,
) -> (RenderState, Seq<Shown>)
    decreases fs.len(),
{
    if fs.len() == 0 {
        (st, Seq::empty())
    } else {
        let (st1, shown1) = render_fragment(st, fs[0].0, who, facts);
        let (st2, shown2) = render(st1, fs.drop_first(), who, facts);
        (st2, shown1 + shown2)
    }
}

/// Processing the queue in two parts shows what processing it at once
/// shows: rendering `fs1` and then `fs2` from where `fs1` left off gives the
/// state and the output of rendering `fs1 + fs2`.
pub proof fn lemma_render_split<Entity>(
    st: RenderState,
    fs1: Seq<FragmentEntry<Entity>>,
    fs2: Seq<FragmentEntry<Entity>>,
    who: Entity,
    facts: EntityFacts<Entity>,
)
    ensures
        ({
            let first = render(st, fs1, who, facts);
            let second = render(first.0, fs2, who, facts);
            render(st, fs1 + fs2, who, facts) == (second.0, first.1 + second.1)
        }),
    decreases fs1.len(),
{
    if fs1.len() == 0 {
        assert(fs1 + fs2 =~= fs2);
        let second = render(st, fs2, who, facts);
        assert(Seq::<Shown>::empty() + second.1 =~= second.1);
    } else {
        let step = render_fragment(st, fs1[0].0, who, facts);
        assert((fs1 + fs2)[0] == fs1[0]);
        assert((fs1 + fs2).drop_first() =~= fs1.drop_first() + fs2);
        lemma_render_split(step.0, fs1.drop_first(), fs2, who, facts);
        let rest1 = render(step.0, fs1.drop_first(), who, facts);
        let second = render(rest1.0, fs2, who, facts);
        assert(step.1 + rest1.1 + second.1 =~= step.1 + (rest1.1 + second.1));
    }
}

/// The state of a line that is not yet begun.
pub open spec fn fresh_state() -> RenderState {
    ((Seq::empty(), false, false), false)
}

/// Lines are independent: after fragments that end with an end of line the
/// rendering state is that of a fresh queue, so processing them followed by
/// more fragments shows what they show, followed by what the rest shows on
/// its own from a fresh queue.
pub proof fn lemma_lines_independent<Entity>(
    st: RenderState,
    fs: Seq<FragmentEntry<Entity>>,
    gs: Seq<FragmentEntry<Entity>>,
    who: Entity,
    facts: EntityFacts<Entity>,
)
    requires
        fs.len() > 0,
        fs.last().0 is EndOfLine,
    ensures
        render(st, fs, who, facts).0 == fresh_state(),
        render(st, fs + gs, who, facts) == (
            render(fresh_state(), gs, who, facts).0,
            render(st, fs, who, facts).1 + render(fresh_state(), gs, who, facts).1,
        ),
{
    let init = fs.drop_last();
    let last = seq![fs.last()];
    assert(init + last =~= fs);
    lemma_render_split(st, init, last, who, facts);
    let mid = render(st, init, who, facts).0;
    assert(last.drop_first() =~= Seq::<FragmentEntry<Entity>>::empty());
    assert(last[0] == fs.last());
    let step = render_fragment(mid, fs.last().0, who, facts);
    assert(step.0 == fresh_state());
    assert(render(step.0, last.drop_first(), who, facts).0 == step.0);
    assert(render(mid, last, who, facts).0 == fresh_state());
    lemma_render_split(st, fs, gs, who, facts);
}

/// What the adapter tells of entities, alike but for the names of objects
/// that the viewer `who` does not see.
pub open spec fn alike_but_unseen_names<Entity>(
    f1: EntityFacts<Entity>,
    f2: EntityFacts<Entity>,
    who: Entity,
) -> bool {
    &&& forall|a: Entity, b: Entity| #[trigger] (f1.can_see)(a, b) == (f2.can_see)(a, b)
    &&& forall|a: Entity| #[trigger] (f1.is_me)(a) == (f2.is_me)(a)
    &&& forall|a: Entity| #[trigger] (f1.gender)(a) == (f2.gender)(a)
    &&& forall|a: Entity| #[trigger] (f1.short_proper)(a) == (f2.short_proper)(a)
    &&& forall|a: Entity| #[trigger] (f1.long_proper)(a) == (f2.long_proper)(a)
    &&& forall|o: Entity|
        #[trigger] (f1.can_see)(who, o) ==> (f1.short_name)(o) == (f2.short_name)(o) && (
        f1.long_name)(o) == (f2.long_name)(o)
}

/// The name of an object the viewer does not see never shows: processing
/// the same fragments with facts that differ only in such names shows the
/// same and ends in the same state.
pub proof fn lemma_unseen_names_hidden<Entity>(
    st: RenderState,
    fs: Seq<FragmentEntry<Entity>>,
    who: Entity,
    f1: EntityFacts<Entity>,
    f2: EntityFacts<Entity>,
)
    requires
        alike_but_unseen_names(f1, f2, who),
    ensures
        render(st, fs, who, f1) == render(st, fs, who, f2),
    decreases fs.len(),
{
    if fs.len() > 0 {
        let f = fs[0].0;
        match f {
            Fragment::A(o) | Fragment::A_(o) | Fragment::The(o) | Fragment::The_(o)
            | Fragment::Thes(o) | Fragment::Thes_(o) | Fragment::Thess(o) | Fragment::Thess_(o)
            | Fragment::Word(o) | Fragment::Word_(o) | Fragment::Is(o) | Fragment::Has(o) => {
                assert((f1.can_see)(who, o) == (f2.can_see)(who, o));
                assert((f1.is_me)(o) == (f2.is_me)(o));
                assert((f1.gender)(o) == (f2.gender)(o));
                assert((f1.short_proper)(o) == (f2.short_proper)(o));
                assert((f1.long_proper)(o) == (f2.long_proper)(o));
            },
            Fragment::My(w, o) | Fragment::My_(w, o) => {
                assert((f1.can_see)(who, o) == (f2.can_see)(who, o));
                assert((f1.is_me)(o) == (f2.is_me)(o));
                assert((f1.is_me)(w) == (f2.is_me)(w));
                assert((f1.gender)(o) == (f2.gender)(o));
                assert((f1.gender)(w) == (f2.gender)(w));
                assert((f1.short_proper)(o) == (f2.short_proper)(o));
                assert((f1.long_proper)(o) == (f2.long_proper)(o));
            },
            Fragment::VerbRef(w, _) | Fragment::VerbString(w, _) => {
                assert((f1.is_me)(w) == (f2.is_me)(w));
                assert((f1.gender)(w) == (f2.gender)(w));
            },
            _ => {},
        }
        assert(render_fragment(st, f, who, f1) == render_fragment(st, f, who, f2));
        lemma_unseen_names_hidden(render_fragment(st, f, who, f1).0, fs.drop_first(), who, f1, f2);
    }
}

/// Adding one text.
proof fn lemma_add_texts_one(st: TextState, a: Seq<char>)
    ensures
        add_texts(st, seq![a]) == add_text(st, a),
{
    assert(seq![a].drop_last() =~= Seq::<Seq<char>>::empty());
    assert(add_texts(st, seq![a].drop_last()) == st);
}

/// Adding two texts.
proof fn lemma_add_texts_two(st: TextState, a: Seq<char>, b: Seq<char>)
    ensures
        add_texts(st, seq![a, b]) == add_text(add_text(st, a), b),
{
    assert(seq![a, b].drop_last() =~= seq![a]);
    lemma_add_texts_one(st, a);
}

/// Collects sentence fragments into a queue. A sentence is started by one
/// of `OutputQueue`'s methods and continued by the methods of the builder it
/// returns; the sentence is ended when the next one starts or when the
/// queue is processed.
pub struct OutputBuilder<Entity, QA> {
    queue_adapter: QA,
    open: bool,
    _entity: PhantomData<Entity>,
}

impl<Entity, QA: QueueAdapter<Entity>> OutputBuilder<Entity, QA> {
    /// The fragments in the queue, oldest first.
    pub closed spec fn queue(&self) -> Seq<FragmentEntry<Entity>> {
        self.queue_adapter.queue_view()
    }

    /// Whether a sentence has been started and not yet ended.
    pub closed spec fn is_open(&self) -> bool {
        self.open
    }

    fn push_fragment(&mut self, frag: Fragment<Entity>) -> (r: &mut Self)
        ensures
            r.queue() == old(self).queue().push(FragmentEntry(frag)),
            r.is_open() == old(self).is_open(),
            *final(self) == *final(r),
    {
        self.queue_adapter.push(FragmentEntry(frag));
        self
    }

    /// Output a/an short-name, ProperName or something/someone/some/you.
    pub fn a(&mut self, obj: Entity) -> (r: &mut Self)
        ensures
            r.queue() == old(self).queue().push(FragmentEntry(Fragment::A(obj))),
            r.is_open() == old(self).is_open(),
            *final(self) == *final(r),
    {
        self.push_fragment(Fragment::A(obj))
    }

    /// Output a/an long name, ProperLongName or something/someone/some/you.
    pub fn a_(&mut self, obj: Entity) -> (r: &mut Self)
        ensures
            r.queue() == old(self).queue().push(FragmentEntry(Fragment::A_(obj))),
            r.is_open() == old(self).is_open(),
            *final(self) == *final(r),
    {
        self.push_fragment(Fragment::A_(obj))
    }

    /// Output the short-name, ProperName or something/someone/you.
    pub fn the(&mut self, obj: Entity) -> (r: &mut Self)
        ensures
            r.queue() == old(self).queue().push(FragmentEntry(Fragment::The(obj))),
            r.is_open() == old(self).is_open(),
            *final(self) == *final(r),
    {
        self.push_fragment(Fragment::The(obj))
    }

    /// Output the long-name, ProperName or something/someone/you.
    pub fn the_(&mut self, obj: Entity) -> (r: &mut Self)
        ensures
            r.queue() == old(self).queue().push(FragmentEntry(Fragment::The_(obj))),
            r.is_open() == old(self).is_open(),
            *final(self) == *final(r),
    {
        self.push_fragment(Fragment::The_(obj))
    }

    /// Output "the <object-short-name>'s"; "something's"/"someone's" if the viewer can't see it.
    pub fn thes(&mut self, obj: Entity) -> (r: &mut Self)
        ensures
            r.queue() == old(self).queue().push(FragmentEntry(Fragment::Thes(obj))),
            r.is_open() == old(self).is_open(),
            *final(self) == *final(r),
    {
        self.push_fragment(Fragment::Thes(obj))
    }

    /// Output "the <object-long-name>'s"; "something's"/"someone's" if the viewer can't see it.
    pub fn thes_(&mut self, obj: Entity) -> (r: &mut Self)
        ensures
            r.queue() == old(self).queue().push(FragmentEntry(Fragment::Thes_(obj))),
            r.is_open() == old(self).is_open(),
            *final(self) == *final(r),
    {
        self.push_fragment(Fragment::Thes_(obj))
    }

    /// Output "yours"/"the <object-short-name>'s".
    pub fn thess(&mut self, obj: Entity) -> (r: &mut Self)
        ensures
            r.queue() == old(self).queue().push(FragmentEntry(Fragment::Thess(obj))),
            r.is_open() == old(self).is_open(),
            *final(self) == *final(r),
    {
        self.push_fragment(Fragment::Thess(obj))
    }

    /// Output "yours"/"the <object-long-name>'s".
    pub fn thess_(&mut self, obj: Entity) -> (r: &mut Self)
        ensures
            r.queue() == old(self).queue().push(FragmentEntry(Fragment::Thess_(obj))),
            r.is_open() == old(self).is_open(),
            *final(self) == *final(r),
    {
        self.push_fragment(Fragment::Thess_(obj))
    }

    /// Output "my/his/her/their/its <object-short-name>".
    pub fn my(&mut self, who: Entity, obj: Entity) -> (r: &mut Self)
        ensures
            r.queue() == old(self).queue().push(FragmentEntry(Fragment::My(who, obj))),
            r.is_open() == old(self).is_open(),
            *final(self) == *final(r),
    {
        self.push_fragment(Fragment::My(who, obj))
    }

    /// Output "my/his/her/their/its <object-long-name>".
    pub fn my_(&mut self, who: Entity, obj: Entity) -> (r: &mut Self)
        ensures
            r.queue() == old(self).queue().push(FragmentEntry(Fragment::My_(who, obj))),
            r.is_open() == old(self).is_open(),
            *final(self) == *final(r),
    {
        self.push_fragment(Fragment::My_(who, obj))
    }

    /// Output "you"/<object-short-name>.
    pub fn word(&mut self, obj: Entity) -> (r: &mut Self)
        ensures
            r.queue() == old(self).queue().push(FragmentEntry(Fragment::Word(obj))),
            r.is_open() == old(self).is_open(),
            *final(self) == *final(r),
    {
        self.push_fragment(Fragment::Word(obj))
    }

    /// Output "you"/<object-long-name>.
    pub fn word_(&mut self, obj: Entity) -> (r: &mut Self)
        ensures
            r.queue() == old(self).queue().push(FragmentEntry(Fragment::Word_(obj))),
            r.is_open() == old(self).is_open(),
            *final(self) == *final(r),
    {
        self.push_fragment(Fragment::Word_(obj))
    }

    /// Output "is"/"are".
    pub fn is(&mut self, obj: Entity) -> (r: &mut Self)
        ensures
            r.queue() == old(self).queue().push(FragmentEntry(Fragment::Is(obj))),
            r.is_open() == old(self).is_open(),
            *final(self) == *final(r),
    {
        self.push_fragment(Fragment::Is(obj))
    }

    /// Output "has"/"have".
    pub fn has(&mut self, obj: Entity) -> (r: &mut Self)
        ensures
            r.queue() == old(self).queue().push(FragmentEntry(Fragment::Has(obj))),
            r.is_open() == old(self).is_open(),
            *final(self) == *final(r),
    {
        self.push_fragment(Fragment::Has(obj))
    }

    /// Output the string.
    pub fn s(&mut self, s: &'static str) -> (r: &mut Self)
        ensures
            r.queue() == old(self).queue().push(FragmentEntry(Fragment::TextRef(s))),
            r.is_open() == old(self).is_open(),
            *final(self) == *final(r),
    {
        self.push_fragment(Fragment::TextRef(s))
    }

    /// Output the string.
    pub fn string(&mut self, s: String) -> (r: &mut Self)
        ensures
            r.queue() == old(self).queue().push(FragmentEntry(Fragment::Text(s))),
            r.is_open() == old(self).is_open(),
            *final(self) == *final(r),
    {
        self.push_fragment(Fragment::Text(s))
    }

    /// Output the verb and add "s"/"es" as needed.
    pub fn v(&mut self, who: Entity, verb: &'static str) -> (r: &mut Self)
        ensures
            r.queue() == old(self).queue().push(FragmentEntry(Fragment::VerbRef(who, verb))),
            r.is_open() == old(self).is_open(),
            *final(self) == *final(r),
    {
        self.push_fragment(Fragment::VerbRef(who, verb))
    }

    /// Output the verb and add "s"/"es" as needed.
    pub fn verb(&mut self, who: Entity, verb: String) -> (r: &mut Self)
        ensures
            r.queue() == old(self).queue().push(FragmentEntry(Fragment::VerbString(who, verb))),
            r.is_open() == old(self).is_open(),
            *final(self) == *final(r),
    {
        self.push_fragment(Fragment::VerbString(who, verb))
    }

    /// Don't add a space before the next word.
    pub fn supress_space(&mut self) -> (r: &mut Self)
        ensures
            r.queue() == old(self).queue().push(FragmentEntry(Fragment::SupressSpace(true))),
            r.is_open() == old(self).is_open(),
            *final(self) == *final(r),
    {
        self.push_fragment(Fragment::SupressSpace(true))
    }

    /// Don't capitalize the next word (only relevant for the first word).
    pub fn supress_capitalize(&mut self) -> (r: &mut Self)
        ensures
            r.queue() == old(self).queue().push(FragmentEntry(Fragment::Capitalize(false))),
            r.is_open() == old(self).is_open(),
            *final(self) == *final(r),
    {
        self.push_fragment(Fragment::Capitalize(false))
    }

    /// Capitalize the next word.
    pub fn capitalize(&mut self) -> (r: &mut Self)
        ensures
            r.queue() == old(self).queue().push(FragmentEntry(Fragment::Capitalize(true))),
            r.is_open() == old(self).is_open(),
            *final(self) == *final(r),
    {
        self.push_fragment(Fragment::Capitalize(true))
    }

    /// Supress the automatic dot at the end of the sentence.
    pub fn supress_dot(&mut self) -> (r: &mut Self)
        ensures
            r.queue() == old(self).queue().push(FragmentEntry(Fragment::SupressDot(true))),
            r.is_open() == old(self).is_open(),
            *final(self) == *final(r),
    {
        self.push_fragment(Fragment::SupressDot(true))
    }

    /// Change the output color.
    pub fn color(&mut self, color: (u8, u8, u8)) -> (r: &mut Self)
        ensures
            r.queue() == old(self).queue().push(FragmentEntry(Fragment::Color(color))),
            r.is_open() == old(self).is_open(),
            *final(self) == *final(r),
    {
        self.push_fragment(Fragment::Color(color))
    }
}

/// OutputQueue is used to create sentences that are sent to a player.
///
/// It adapts the sentences to the involved objects' genders,
/// plural/uncountability and to whether the player can see them.
///
/// The first word in a sentence becomes capitalized, unless
/// `supress_capitalize` is called before. At the end of a sentence a dot is
/// added if the message doesn't already end with a punctuation mark; use
/// `supress_dot` to supress it. Between fragments a space is normally
/// added; `supress_space` supresses the next one. If the text being added
/// starts with ',' or '"' no space is added before it; if it ends with '"'
/// no space is added after it.
pub struct OutputQueue<Entity, QA> {
    builder: OutputBuilder<Entity, QA>,
    supress_dot: bool,
    supress_capitalize: bool,
    add_space: bool,
    output_string: String,
    who: Entity,
}

impl<Entity: Copy, QA: QueueAdapter<Entity>> OutputQueue<Entity, QA> {
    /// The builder that collects the fragments.
    pub closed spec fn builder(&self) -> OutputBuilder<Entity, QA> {
        self.builder
    }

    /// The fragments that `process_queue` will handle: the queue, with the
    /// end of the open sentence, if any.
    pub closed spec fn pending(&self) -> Seq<FragmentEntry<Entity>> {
        if self.builder.open {
            self.builder.queue().push(FragmentEntry(Fragment::EndOfLine))
        } else {
            self.builder.queue()
        }
    }

    /// What `process_queue` will handle is the queue, with an end of line
    /// after the sentence that is still open.
    pub proof fn lemma_pending(&self)
        ensures
            self.pending() == (if self.builder().is_open() {
                self.builder().queue().push(FragmentEntry(Fragment::EndOfLine))
            } else {
                self.builder().queue()
            }),
    {
    }

    /// The line being written.
    pub closed spec fn text_state(&self) -> TextState {
        (self.output_string@, self.add_space, self.supress_capitalize)
    }

    /// Whether the dot at the end of the current line is supressed.
    pub closed spec fn dot_supressed(&self) -> bool {
        self.supress_dot
    }

    /// The player the sentences are written for.
    pub closed spec fn viewer(&self) -> Entity {
        self.who
    }

    /// Create a new OutputQueue for the player `who`, using the given
    /// queue to store messages until they are processed with
    /// `process_queue`.
    pub fn new(queue_adapter: QA, who: Entity) -> (r: Self)
        ensures
            r.pending() == queue_adapter.queue_view(),
            r.builder().queue() == queue_adapter.queue_view(),
            !r.builder().is_open(),
            r.text_state() == (Seq::<char>::empty(), false, false),
            !r.dot_supressed(),
            r.viewer() == who,
    {
        Self {
            builder: OutputBuilder { queue_adapter, open: false, _entity: PhantomData },
            supress_dot: false,
            supress_capitalize: false,
            add_space: false,
            output_string: String::new(),
            who,
        }
    }

    /// Ends the open sentence, if any, and marks a new one as open.
    fn start_sentence(&mut self)
        ensures
            final(self).builder.queue() == old(self).pending(),
            final(self).builder.open,
            final(self).text_state() == old(self).text_state(),
            final(self).supress_dot == old(self).supress_dot,
            final(self).who == old(self).who,
    {
        if self.builder.open {
            self.builder.queue_adapter.push(FragmentEntry(Fragment::EndOfLine));
        }
        self.builder.open = true;
    }

    /// Output a/an short-name, ProperName or something/someone/some/you.
    ///
    /// Starts a new sentence; the previous one, if any, is ended first.
    pub fn a(&mut self, obj: Entity) -> (r: &mut OutputBuilder<Entity, QA>)
        ensures
            r.queue() == old(self).pending().push(FragmentEntry(Fragment::A(obj))),
            r.is_open(),
            final(self).builder() == *final(r),
            final(self).text_state() == old(self).text_state(),
            final(self).dot_supressed() == old(self).dot_supressed(),
            final(self).viewer() == old(self).viewer(),
    {
        self.start_sentence();
        self.builder.push_fragment(Fragment::A(obj))
    }

    /// Output a/an long name, ProperLongName or something/someone/some/you.
    ///
    /// Starts a new sentence; the previous one, if any, is ended first.
    pub fn a_(&mut self, obj: Entity) -> (r: &mut OutputBuilder<Entity, QA>)
        ensures
            r.queue() == old(self).pending().push(FragmentEntry(Fragment::A_(obj))),
            r.is_open(),
            final(self).builder() == *final(r),
            final(self).text_state() == old(self).text_state(),
            final(self).dot_supressed() == old(self).dot_supressed(),
            final(self).viewer() == old(self).viewer(),
    {
        self.start_sentence();
        self.builder.push_fragment(Fragment::A_(obj))
    }

    /// Output the short-name, ProperName or something/someone/you.
    ///
    /// Starts a new sentence; the previous one, if any, is ended first.
    pub fn the(&mut self, obj: Entity) -> (r: &mut OutputBuilder<Entity, QA>)
        ensures
            r.queue() == old(self).pending().push(FragmentEntry(Fragment::The(obj))),
            r.is_open(),
            final(self).builder() == *final(r),
            final(self).text_state() == old(self).text_state(),
            final(self).dot_supressed() == old(self).dot_supressed(),
            final(self).viewer() == old(self).viewer(),
    {
        self.start_sentence();
        self.builder.push_fragment(Fragment::The(obj))
    }

    /// Output the long-name, ProperName or something/someone/you.
    ///
    /// Starts a new sentence; the previous one, if any, is ended first.
    pub fn the_(&mut self, obj: Entity) -> (r: &mut OutputBuilder<Entity, QA>)
        ensures
            r.queue() == old(self).pending().push(FragmentEntry(Fragment::The_(obj))),
            r.is_open(),
            final(self).builder() == *final(r),
            final(self).text_state() == old(self).text_state(),
            final(self).dot_supressed() == old(self).dot_supressed(),
            final(self).viewer() == old(self).viewer(),
    {
        self.start_sentence();
        self.builder.push_fragment(Fragment::The_(obj))
    }

    /// Output "the <object-short-name>'s"; "something's"/"someone's" if the viewer can't see it.
    ///
    /// Starts a new sentence; the previous one, if any, is ended first.
    pub fn thes(&mut self, obj: Entity) -> (r: &mut OutputBuilder<Entity, QA>)
        ensures
            r.queue() == old(self).pending().push(FragmentEntry(Fragment::Thes(obj))),
            r.is_open(),
            final(self).builder() == *final(r),
            final(self).text_state() == old(self).text_state(),
            final(self).dot_supressed() == old(self).dot_supressed(),
            final(self).viewer() == old(self).viewer(),
    {
        self.start_sentence();
        self.builder.push_fragment(Fragment::Thes(obj))
    }

    /// Output "the <object-long-name>'s"; "something's"/"someone's" if the viewer can't see it.
    ///
    /// Starts a new sentence; the previous one, if any, is ended first.
    pub fn thes_(&mut self, obj: Entity) -> (r: &mut OutputBuilder<Entity, QA>)
        ensures
            r.queue() == old(self).pending().push(FragmentEntry(Fragment::Thes_(obj))),
            r.is_open(),
            final(self).builder() == *final(r),
            final(self).text_state() == old(self).text_state(),
            final(self).dot_supressed() == old(self).dot_supressed(),
            final(self).viewer() == old(self).viewer(),
    {
        self.start_sentence();
        self.builder.push_fragment(Fragment::Thes_(obj))
    }

    /// Output "yours"/"the <object-short-name>'s".
    ///
    /// Starts a new sentence; the previous one, if any, is ended first.
    pub fn thess(&mut self, obj: Entity) -> (r: &mut OutputBuilder<Entity, QA>)
        ensures
            r.queue() == old(self).pending().push(FragmentEntry(Fragment::Thess(obj))),
            r.is_open(),
            final(self).builder() == *final(r),
            final(self).text_state() == old(self).text_state(),
            final(self).dot_supressed() == old(self).dot_supressed(),
            final(self).viewer() == old(self).viewer(),
    {
        self.start_sentence();
        self.builder.push_fragment(Fragment::Thess(obj))
    }

    /// Output "yours"/"the <object-long-name>'s".
    ///
    /// Starts a new sentence; the previous one, if any, is ended first.
    pub fn thess_(&mut self, obj: Entity) -> (r: &mut OutputBuilder<Entity, QA>)
        ensures
            r.queue() == old(self).pending().push(FragmentEntry(Fragment::Thess_(obj))),
            r.is_open(),
            final(self).builder() == *final(r),
            final(self).text_state() == old(self).text_state(),
            final(self).dot_supressed() == old(self).dot_supressed(),
            final(self).viewer() == old(self).viewer(),
    {
        self.start_sentence();
        self.builder.push_fragment(Fragment::Thess_(obj))
    }

    /// Output "my/his/her/their/its <object-short-name>".
    ///
    /// Starts a new sentence; the previous one, if any, is ended first.
    pub fn my(&mut self, who: Entity, obj: Entity) -> (r: &mut OutputBuilder<Entity, QA>)
        ensures
            r.queue() == old(self).pending().push(FragmentEntry(Fragment::My(who, obj))),
            r.is_open(),
            final(self).builder() == *final(r),
            final(self).text_state() == old(self).text_state(),
            final(self).dot_supressed() == old(self).dot_supressed(),
            final(self).viewer() == old(self).viewer(),
    {
        self.start_sentence();
        self.builder.push_fragment(Fragment::My(who, obj))
    }

    /// Output "my/his/her/their/its <object-long-name>".
    ///
    /// Starts a new sentence; the previous one, if any, is ended first.
    pub fn my_(&mut self, who: Entity, obj: Entity) -> (r: &mut OutputBuilder<Entity, QA>)
        ensures
            r.queue() == old(self).pending().push(FragmentEntry(Fragment::My_(who, obj))),
            r.is_open(),
            final(self).builder() == *final(r),
            final(self).text_state() == old(self).text_state(),
            final(self).dot_supressed() == old(self).dot_supressed(),
            final(self).viewer() == old(self).viewer(),
    {
        self.start_sentence();
        self.builder.push_fragment(Fragment::My_(who, obj))
    }

    /// Output "you"/<object-short-name>.
    ///
    /// Starts a new sentence; the previous one, if any, is ended first.
    pub fn word(&mut self, obj: Entity) -> (r: &mut OutputBuilder<Entity, QA>)
        ensures
            r.queue() == old(self).pending().push(FragmentEntry(Fragment::Word(obj))),
            r.is_open(),
            final(self).builder() == *final(r),
            final(self).text_state() == old(self).text_state(),
            final(self).dot_supressed() == old(self).dot_supressed(),
            final(self).viewer() == old(self).viewer(),
    {
        self.start_sentence();
        self.builder.push_fragment(Fragment::Word(obj))
    }

    /// Output "you"/<object-long-name>.
    ///
    /// Starts a new sentence; the previous one, if any, is ended first.
    pub fn word_(&mut self, obj: Entity) -> (r: &mut OutputBuilder<Entity, QA>)
        ensures
            r.queue() == old(self).pending().push(FragmentEntry(Fragment::Word_(obj))),
            r.is_open(),
            final(self).builder() == *final(r),
            final(self).text_state() == old(self).text_state(),
            final(self).dot_supressed() == old(self).dot_supressed(),
            final(self).viewer() == old(self).viewer(),
    {
        self.start_sentence();
        self.builder.push_fragment(Fragment::Word_(obj))
    }

    /// Output "is"/"are".
    ///
    /// Starts a new sentence; the previous one, if any, is ended first.
    pub fn is(&mut self, obj: Entity) -> (r: &mut OutputBuilder<Entity, QA>)
        ensures
            r.queue() == old(self).pending().push(FragmentEntry(Fragment::Is(obj))),
            r.is_open(),
            final(self).builder() == *final(r),
            final(self).text_state() == old(self).text_state(),
            final(self).dot_supressed() == old(self).dot_supressed(),
            final(self).viewer() == old(self).viewer(),
    {
        self.start_sentence();
        self.builder.push_fragment(Fragment::Is(obj))
    }

    /// Output "has"/"have".
    ///
    /// Starts a new sentence; the previous one, if any, is ended first.
    pub fn has(&mut self, obj: Entity) -> (r: &mut OutputBuilder<Entity, QA>)
        ensures
            r.queue() == old(self).pending().push(FragmentEntry(Fragment::Has(obj))),
            r.is_open(),
            final(self).builder() == *final(r),
            final(self).text_state() == old(self).text_state(),
            final(self).dot_supressed() == old(self).dot_supressed(),
            final(self).viewer() == old(self).viewer(),
    {
        self.start_sentence();
        self.builder.push_fragment(Fragment::Has(obj))
    }

    /// Output the string.
    ///
    /// Starts a new sentence; the previous one, if any, is ended first.
    pub fn s(&mut self, s: &'static str) -> (r: &mut OutputBuilder<Entity, QA>)
        ensures
            r.queue() == old(self).pending().push(FragmentEntry(Fragment::TextRef(s))),
            r.is_open(),
            final(self).builder() == *final(r),
            final(self).text_state() == old(self).text_state(),
            final(self).dot_supressed() == old(self).dot_supressed(),
            final(self).viewer() == old(self).viewer(),
    {
        self.start_sentence();
        self.builder.push_fragment(Fragment::TextRef(s))
    }

    /// Output the string.
    ///
    /// Starts a new sentence; the previous one, if any, is ended first.
    pub fn string(&mut self, s: String) -> (r: &mut OutputBuilder<Entity, QA>)
        ensures
            r.queue() == old(self).pending().push(FragmentEntry(Fragment::Text(s))),
            r.is_open(),
            final(self).builder() == *final(r),
            final(self).text_state() == old(self).text_state(),
            final(self).dot_supressed() == old(self).dot_supressed(),
            final(self).viewer() == old(self).viewer(),
    {
        self.start_sentence();
        self.builder.push_fragment(Fragment::Text(s))
    }

    /// Output the verb and add "s"/"es" as needed.
    ///
    /// Starts a new sentence; the previous one, if any, is ended first.
    pub fn v(&mut self, who: Entity, verb: &'static str) -> (r: &mut OutputBuilder<Entity, QA>)
        ensures
            r.queue() == old(self).pending().push(FragmentEntry(Fragment::VerbRef(who, verb))),
            r.is_open(),
            final(self).builder() == *final(r),
            final(self).text_state() == old(self).text_state(),
            final(self).dot_supressed() == old(self).dot_supressed(),
            final(self).viewer() == old(self).viewer(),
    {
        self.start_sentence();
        self.builder.push_fragment(Fragment::VerbRef(who, verb))
    }

    /// Output the verb and add "s"/"es" as needed.
    ///
    /// Starts a new sentence; the previous one, if any, is ended first.
    pub fn verb(&mut self, who: Entity, verb: String) -> (r: &mut OutputBuilder<Entity, QA>)
        ensures
            r.queue() == old(self).pending().push(FragmentEntry(Fragment::VerbString(who, verb))),
            r.is_open(),
            final(self).builder() == *final(r),
            final(self).text_state() == old(self).text_state(),
            final(self).dot_supressed() == old(self).dot_supressed(),
            final(self).viewer() == old(self).viewer(),
    {
        self.start_sentence();
        self.builder.push_fragment(Fragment::VerbString(who, verb))
    }

    /// Don't add a space before the next word.
    ///
    /// Starts a new sentence; the previous one, if any, is ended first.
    pub fn supress_space(&mut self) -> (r: &mut OutputBuilder<Entity, QA>)
        ensures
            r.queue() == old(self).pending().push(FragmentEntry(Fragment::SupressSpace(true))),
            r.is_open(),
            final(self).builder() == *final(r),
            final(self).text_state() == old(self).text_state(),
            final(self).dot_supressed() == old(self).dot_supressed(),
            final(self).viewer() == old(self).viewer(),
    {
        self.start_sentence();
        self.builder.push_fragment(Fragment::SupressSpace(true))
    }

    /// Don't capitalize the next word (only relevant for the first word).
    ///
    /// Starts a new sentence; the previous one, if any, is ended first.
    pub fn supress_capitalize(&mut self) -> (r: &mut OutputBuilder<Entity, QA>)
        ensures
            r.queue() == old(self).pending().push(FragmentEntry(Fragment::Capitalize(false))),
            r.is_open(),
            final(self).builder() == *final(r),
            final(self).text_state() == old(self).text_state(),
            final(self).dot_supressed() == old(self).dot_supressed(),
            final(self).viewer() == old(self).viewer(),
    {
        self.start_sentence();
        self.builder.push_fragment(Fragment::Capitalize(false))
    }

    /// Capitalize the next word.
    ///
    /// Starts a new sentence; the previous one, if any, is ended first.
    pub fn capitalize(&mut self) -> (r: &mut OutputBuilder<Entity, QA>)
        ensures
            r.queue() == old(self).pending().push(FragmentEntry(Fragment::Capitalize(true))),
            r.is_open(),
            final(self).builder() == *final(r),
            final(self).text_state() == old(self).text_state(),
            final(self).dot_supressed() == old(self).dot_supressed(),
            final(self).viewer() == old(self).viewer(),
    {
        self.start_sentence();
        self.builder.push_fragment(Fragment::Capitalize(true))
    }

    /// Supress the automatic dot at the end of the sentence.
    ///
    /// Starts a new sentence; the previous one, if any, is ended first.
    pub fn supress_dot(&mut self) -> (r: &mut OutputBuilder<Entity, QA>)
        ensures
            r.queue() == old(self).pending().push(FragmentEntry(Fragment::SupressDot(true))),
            r.is_open(),
            final(self).builder() == *final(r),
            final(self).text_state() == old(self).text_state(),
            final(self).dot_supressed() == old(self).dot_supressed(),
            final(self).viewer() == old(self).viewer(),
    {
        self.start_sentence();
        self.builder.push_fragment(Fragment::SupressDot(true))
    }

    /// Change the output color.
    ///
    /// Starts a new sentence; the previous one, if any, is ended first.
    pub fn color(&mut self, color: (u8, u8, u8)) -> (r: &mut OutputBuilder<Entity, QA>)
        ensures
            r.queue() == old(self).pending().push(FragmentEntry(Fragment::Color(color))),
            r.is_open(),
            final(self).builder() == *final(r),
            final(self).text_state() == old(self).text_state(),
            final(self).dot_supressed() == old(self).dot_supressed(),
            final(self).viewer() == old(self).viewer(),
    {
        self.start_sentence();
        self.builder.push_fragment(Fragment::Color(color))
    }
    /// Adds `text` to the line.
    pub fn add_string(&mut self, text: &str)
        ensures
            final(self).text_state() == add_text(old(self).text_state(), text@),
            final(self).builder() == old(self).builder(),
            final(self).dot_supressed() == old(self).dot_supressed(),
            final(self).viewer() == old(self).viewer(),
    {
        let ghost st = self.text_state();
        let starts_special = match first_char(text) {
            Some(c) => c == ',' || c == '"',
            None => false,
        };
        if self.add_space && !starts_special {
            string_push(&mut self.output_string, ' ');
        }
        if !self.supress_capitalize {
            self.supress_capitalize = true;
            uppercase_first_char(text, &mut self.output_string);
        } else {
            self.output_string.append(text);
        }
        let ends_quote = match last_char(text) {
            Some(c) => c == '"',
            None => false,
        };
        self.add_space = !ends_quote;
    }

    /// Adds "a/an <name>", "some <name>", a proper name, "you", "someone" or
    /// "something", from what the entity adapter answered about the object.
    pub fn add_a_word(&mut self, is_me: bool, can_see: bool, gender: Gender, name: &str, is_prop: bool)
        ensures
            final(self).text_state() == add_texts(
                old(self).text_state(),
                a_word_texts(is_me, can_see, spec_is_singular(gender), name@, is_prop),
            ),
            final(self).builder() == old(self).builder(),
            final(self).dot_supressed() == old(self).dot_supressed(),
            final(self).viewer() == old(self).viewer(),
    {
        let ghost st = self.text_state();
        if is_me {
            self.add_string("you");
            proof {
                lemma_add_texts_one(st, "you"@);
            }
        } else if can_see {
            if !is_prop && is_singular(gender) {
                let should_be_an = match first_char(name) {
                    Some(c) => super::output_helper::is_vowel(c),
                    None => false,
                };
                if should_be_an {
                    self.add_string("an");
                    self.add_string(name);
                    proof {
                        lemma_add_texts_two(st, "an"@, name@);
                    }
                } else {
                    self.add_string("a");
                    self.add_string(name);
                    proof {
                        lemma_add_texts_two(st, "a"@, name@);
                    }
                }
            } else if !is_prop {
                self.add_string("some");
                self.add_string(name);
                proof {
                    lemma_add_texts_two(st, "some"@, name@);
                }
            } else {
                self.add_string(name);
                proof {
                    lemma_add_texts_one(st, name@);
                }
            }
        } else if is_prop {
            self.add_string("someone");
            proof {
                lemma_add_texts_one(st, "someone"@);
            }
        } else {
            self.add_string("something");
            proof {
                lemma_add_texts_one(st, "something"@);
            }
        }
    }

    /// Adds "the <name>", a proper name, "you", "someone" or "something".
    pub fn add_the_word(&mut self, is_me: bool, can_see: bool, name: &str, is_proper: bool)
        ensures
            final(self).text_state() == add_texts(
                old(self).text_state(),
                the_word_texts(is_me, can_see, name@, is_proper),
            ),
            final(self).builder() == old(self).builder(),
            final(self).dot_supressed() == old(self).dot_supressed(),
            final(self).viewer() == old(self).viewer(),
    {
        let ghost st = self.text_state();
        if is_me {
            self.add_string("you");
            proof {
                lemma_add_texts_one(st, "you"@);
            }
        } else if can_see {
            if !is_proper {
                self.add_string("the");
                self.add_string(name);
                proof {
                    lemma_add_texts_two(st, "the"@, name@);
                }
            } else {
                self.add_string(name);
                proof {
                    lemma_add_texts_one(st, name@);
                }
            }
        } else if is_proper {
            self.add_string("someone");
            proof {
                lemma_add_texts_one(st, "someone"@);
            }
        } else {
            self.add_string("something");
            proof {
                lemma_add_texts_one(st, "something"@);
            }
        }
    }

    /// Adds `mine` ("your" or "yours") when the object is the viewer, "the
    /// <name>'s", "<ProperName>'s", "someone's" or "something's"; nothing
    /// is added for a seen object with an empty name.
    pub fn add_thes_word(
        &mut self,
        is_me_obj: bool,
        can_see: bool,
        name: &str,
        is_proper: bool,
        mine: &str,
    )
        ensures
            final(self).text_state() == thes_state(
                old(self).text_state(),
                is_me_obj,
                can_see,
                name@,
                is_proper,
                mine@,
            ),
            final(self).builder() == old(self).builder(),
            final(self).dot_supressed() == old(self).dot_supressed(),
            final(self).viewer() == old(self).viewer(),
    {
        if is_me_obj {
            self.add_string(mine);
        } else if can_see {
            if let Some(ch) = last_char(name) {
                let uc = char_is_uppercase(ch);
                let add = if ch == 's' || ch == 'S' {
                    "'"
                } else if uc {
                    "'S"
                } else {
                    "'s"
                };
                self.add_the_word(false, true, name, is_proper);
                self.add_space = false;
                self.add_string(add);
            }
        } else if is_proper {
            self.add_string("someone's");
        } else {
            self.add_string("something's");
        }
    }

    /// Adds "you", the object's name, "someone" or "something".
    pub fn add_bare_word(&mut self, is_me: bool, can_see: bool, name: &str, is_proper: bool)
        ensures
            final(self).text_state() == add_texts(
                old(self).text_state(),
                word_texts(is_me, can_see, name@, is_proper),
            ),
            final(self).builder() == old(self).builder(),
            final(self).dot_supressed() == old(self).dot_supressed(),
            final(self).viewer() == old(self).viewer(),
    {
        let ghost st = self.text_state();
        let word = if is_me {
            "you"
        } else if can_see {
            name
        } else if is_proper {
            "someone"
        } else {
            "something"
        };
        self.add_string(word);
        proof {
            lemma_add_texts_one(st, word@);
        }
    }

    /// Adds "<owner's pronoun> <name>" ("your", "his", "her", "their" or
    /// "its") when the viewer sees the object, else "a/an <name>" for an
    /// unseen object ("you", "someone" or "something").
    pub fn add_my_word(
        &mut self,
        is_me_owner: bool,
        owner_gender: Gender,
        is_me_obj: bool,
        can_see_obj: bool,
        obj_gender: Gender,
        name: &str,
        is_prop: bool,
    )
        ensures
            final(self).text_state() == add_texts(
                old(self).text_state(),
                my_texts(
                    is_me_owner,
                    owner_gender,
                    is_me_obj,
                    can_see_obj,
                    spec_is_singular(obj_gender),
                    name@,
                    is_prop,
                ),
            ),
            final(self).builder() == old(self).builder(),
            final(self).dot_supressed() == old(self).dot_supressed(),
            final(self).viewer() == old(self).viewer(),
    {
        let ghost st = self.text_state();
        if can_see_obj {
            let pronoun = if is_me_owner {
                "your"
            } else {
                match owner_gender {
                    Gender::Male => "his",
                    Gender::Female => "her",
                    Gender::Plural => "their",
                    Gender::Neuter | Gender::Uncountable => "its",
                }
            };
            self.add_string(pronoun);
            self.add_string(name);
            proof {
                lemma_add_texts_two(st, pronoun@, name@);
            }
        } else {
            self.add_a_word(is_me_obj, false, obj_gender, name, is_prop);
        }
    }

    /// Adds the singular or the plural word.
    pub fn sing_plur(
        &mut self,
        gender: Gender,
        is_me: bool,
        can_see: bool,
        singular: &str,
        plural: &str,
    )
        ensures
            final(self).text_state() == add_text(
                old(self).text_state(),
                if uses_plural(gender, is_me, can_see) {
                    plural@
                } else {
                    singular@
                },
            ),
            final(self).builder() == old(self).builder(),
            final(self).dot_supressed() == old(self).dot_supressed(),
            final(self).viewer() == old(self).viewer(),
    {
        let mut g = gender;
        if is_me {
            g = Gender::Plural;
        } else if !can_see {
            g = Gender::Male;
        }
        self.add_string(
            match g {
                Gender::Plural => plural,
                _ => singular,
            },
        );
    }

    /// Adds a verb, capitalized when it starts the sentence, in the third
    /// person singular when the subject is singular and not the viewer.
    pub fn add_verb(&mut self, gender: Gender, is_me: bool, verb: &str)
        ensures
            final(self).text_state() == verb_state(old(self).text_state(), gender, is_me, verb@),
            final(self).builder() == old(self).builder(),
            final(self).dot_supressed() == old(self).dot_supressed(),
            final(self).viewer() == old(self).viewer(),
    {
        if self.add_space {
            string_push(&mut self.output_string, ' ');
        }
        if self.supress_capitalize {
            self.output_string.append(verb);
        } else {
            uppercase_first_char(verb, &mut self.output_string);
        }
        self.supress_capitalize = true;
        self.add_space = false;
        if is_singular(gender) && !is_me {
            add_verb_end_s(&mut self.output_string);
        }
        self.add_string("");
        proof {
            reveal_strlit("");
            assert(self.output_string@ =~= verb_state(old(self).text_state(), gender, is_me, verb@).0);
        }
    }

    /// Ends the line: returns it, with a dot added when needed, and starts
    /// an empty one.
    pub fn end_of_line(&mut self) -> (line: String)
        ensures
            line@ == finished_line(old(self).text_state().0, old(self).dot_supressed()),
            final(self).text_state() == (Seq::<char>::empty(), false, false),
            !final(self).dot_supressed(),
            final(self).builder() == old(self).builder(),
            final(self).viewer() == old(self).viewer(),
    {
        let mut line = String::new();
        std::mem::swap(&mut line, &mut self.output_string);
        if !self.supress_dot && needs_dot(line.as_str()) {
            string_push(&mut line, '.');
        }
        self.supress_dot = false;
        self.supress_capitalize = false;
        self.add_space = false;
        line
    }

    /// Processes one fragment with the entity adapter; see
    /// `render_fragment`.
    fn process_fragment<A: EntityAdapter<Entity>>(&mut self, frag: Fragment<Entity>, entity_adapter: &mut A)
        ensures
            final(self).builder() == old(self).builder(),
            final(self).viewer() == old(self).viewer(),
            final(entity_adapter).facts() == old(entity_adapter).facts(),
            ({
                let (st, shown) = render_fragment(
                    (old(self).text_state(), old(self).dot_supressed()),
                    frag,
                    old(self).viewer(),
                    old(entity_adapter).facts(),
                );
                &&& (final(self).text_state(), final(self).dot_supressed()) == st
                &&& final(entity_adapter).shown() == old(entity_adapter).shown() + shown
            }),
    {
        let ghost facts = entity_adapter.facts();
        let ghost shown_before = entity_adapter.shown();
        let ghost step = render_fragment(
            (self.text_state(), self.supress_dot),
            frag,
            self.who,
            facts,
        );
        let who = self.who;
        match frag {
            Fragment::A(obj) => {
                let mut name = String::new();
                entity_adapter.append_short_name(obj, &mut name);
                assert(name@ =~= (facts.short_name)(obj));
                let is_me = entity_adapter.is_me(obj);
                let can_see = entity_adapter.can_see(who, obj);
                let gender = entity_adapter.gender(obj);
                let prop = entity_adapter.has_short_proper(obj);
                self.add_a_word(is_me, can_see, gender, name.as_str(), prop);
            },
            Fragment::A_(obj) => {
                let mut name = String::new();
                entity_adapter.append_long_name(obj, &mut name);
                assert(name@ =~= (facts.long_name)(obj));
                let is_me = entity_adapter.is_me(obj);
                let can_see = entity_adapter.can_see(who, obj);
                let gender = entity_adapter.gender(obj);
                let prop = entity_adapter.has_long_proper(obj);
                self.add_a_word(is_me, can_see, gender, name.as_str(), prop);
            },
            Fragment::The(obj) => {
                let mut name = String::new();
                entity_adapter.append_short_name(obj, &mut name);
                assert(name@ =~= (facts.short_name)(obj));
                let is_me = entity_adapter.is_me(obj);
                let can_see = entity_adapter.can_see(who, obj);
                let prop = entity_adapter.has_short_proper(obj);
                self.add_the_word(is_me, can_see, name.as_str(), prop);
            },
            Fragment::The_(obj) => {
                let mut name = String::new();
                entity_adapter.append_long_name(obj, &mut name);
                assert(name@ =~= (facts.long_name)(obj));
                let is_me = entity_adapter.is_me(obj);
                let can_see = entity_adapter.can_see(who, obj);
                let prop = entity_adapter.has_long_proper(obj);
                self.add_the_word(is_me, can_see, name.as_str(), prop);
            },
            Fragment::Thes(obj) => {
                let mut name = String::new();
                entity_adapter.append_short_name(obj, &mut name);
                assert(name@ =~= (facts.short_name)(obj));
                let is_me_obj = entity_adapter.is_me(obj);
                let can_see = entity_adapter.can_see(who, obj);
                let prop = entity_adapter.has_short_proper(obj);
                self.add_thes_word(is_me_obj, can_see, name.as_str(), prop, "your");
            },
            Fragment::Thes_(obj) => {
                let mut name = String::new();
                entity_adapter.append_long_name(obj, &mut name);
                assert(name@ =~= (facts.long_name)(obj));
                let is_me_obj = entity_adapter.is_me(obj);
                let can_see = entity_adapter.can_see(who, obj);
                let prop = entity_adapter.has_long_proper(obj);
                self.add_thes_word(is_me_obj, can_see, name.as_str(), prop, "your");
            },
            Fragment::Thess(obj) => {
                let mut name = String::new();
                entity_adapter.append_short_name(obj, &mut name);
                assert(name@ =~= (facts.short_name)(obj));
                let is_me_obj = entity_adapter.is_me(obj);
                let can_see = entity_adapter.can_see(who, obj);
                let prop = entity_adapter.has_short_proper(obj);
                self.add_thes_word(is_me_obj, can_see, name.as_str(), prop, "yours");
            },
            Fragment::Thess_(obj) => {
                let mut name = String::new();
                entity_adapter.append_long_name(obj, &mut name);
                assert(name@ =~= (facts.long_name)(obj));
                let is_me_obj = entity_adapter.is_me(obj);
                let can_see = entity_adapter.can_see(who, obj);
                let prop = entity_adapter.has_long_proper(obj);
                self.add_thes_word(is_me_obj, can_see, name.as_str(), prop, "yours");
            },
            Fragment::My(owner, obj) => {
                let mut name = String::new();
                entity_adapter.append_short_name(obj, &mut name);
                assert(name@ =~= (facts.short_name)(obj));
                let is_me_owner = entity_adapter.is_me(owner);
                let owner_gender = entity_adapter.gender(owner);
                let is_me_obj = entity_adapter.is_me(obj);
                let can_see = entity_adapter.can_see(who, obj);
                let obj_gender = entity_adapter.gender(obj);
                let prop = entity_adapter.has_short_proper(obj);
                self.add_my_word(
                    is_me_owner,
                    owner_gender,
                    is_me_obj,
                    can_see,
                    obj_gender,
                    name.as_str(),
                    prop,
                );
            },
            Fragment::My_(owner, obj) => {
                let mut name = String::new();
                entity_adapter.append_long_name(obj, &mut name);
                assert(name@ =~= (facts.long_name)(obj));
                let is_me_owner = entity_adapter.is_me(owner);
                let owner_gender = entity_adapter.gender(owner);
                let is_me_obj = entity_adapter.is_me(obj);
                let can_see = entity_adapter.can_see(who, obj);
                let obj_gender = entity_adapter.gender(obj);
                let prop = entity_adapter.has_long_proper(obj);
                self.add_my_word(
                    is_me_owner,
                    owner_gender,
                    is_me_obj,
                    can_see,
                    obj_gender,
                    name.as_str(),
                    prop,
                );
            },
            Fragment::Word(obj) => {
                let mut name = String::new();
                entity_adapter.append_short_name(obj, &mut name);
                assert(name@ =~= (facts.short_name)(obj));
                let is_me = entity_adapter.is_me(obj);
                let can_see = entity_adapter.can_see(who, obj);
                let prop = entity_adapter.has_short_proper(obj);
                self.add_bare_word(is_me, can_see, name.as_str(), prop);
            },
            Fragment::Word_(obj) => {
                let mut name = String::new();
                entity_adapter.append_long_name(obj, &mut name);
                assert(name@ =~= (facts.long_name)(obj));
                let is_me = entity_adapter.is_me(obj);
                let can_see = entity_adapter.can_see(who, obj);
                let prop = entity_adapter.has_long_proper(obj);
                self.add_bare_word(is_me, can_see, name.as_str(), prop);
            },
            Fragment::Is(obj) => {
                let gender = entity_adapter.gender(obj);
                let is_me = entity_adapter.is_me(obj);
                let can_see = entity_adapter.can_see(who, obj);
                self.sing_plur(gender, is_me, can_see, "is", "are");
            },
            Fragment::Has(obj) => {
                let gender = entity_adapter.gender(obj);
                let is_me = entity_adapter.is_me(obj);
                let can_see = entity_adapter.can_see(who, obj);
                self.sing_plur(gender, is_me, can_see, "has", "have");
            },
            Fragment::TextRef(s) => {
                self.add_string(s);
            },
            Fragment::Text(s) => {
                self.add_string(s.as_str());
            },
            Fragment::VerbRef(subject, verb) => {
                let gender = entity_adapter.gender(subject);
                let is_me = entity_adapter.is_me(subject);
                self.add_verb(gender, is_me, verb);
            },
            Fragment::VerbString(subject, verb) => {
                let gender = entity_adapter.gender(subject);
                let is_me = entity_adapter.is_me(subject);
                self.add_verb(gender, is_me, verb.as_str());
            },
            Fragment::Capitalize(capitalize) => {
                self.supress_capitalize = !capitalize;
            },
            Fragment::SupressDot(supress_dot) => {
                self.supress_dot = supress_dot;
            },
            Fragment::SupressSpace(supress_space) => {
                self.add_space = !supress_space;
            },
            Fragment::Color(rgb) => {
                entity_adapter.set_color(rgb);
                assert(entity_adapter.shown() =~= shown_before + step.1);
            },
            Fragment::EndOfLine => {
                let line = self.end_of_line();
                entity_adapter.write_text(line.as_str());
                entity_adapter.done();
                assert(entity_adapter.shown() =~= shown_before + step.1);
            },
        }
    }

    /// Process all the queued output with the entity adapter.
    ///
    /// Each fragment is rendered in turn with what the adapter tells of
    /// entities (see `render`): the finished lines, the color changes and
    /// the ends of lines are shown through the adapter, in order.
    pub fn process_queue<A: EntityAdapter<Entity>>(&mut self, entity_adapter: &mut A)
        ensures
            final(self).builder().queue().len() == 0,
            !final(self).builder().is_open(),
            final(self).viewer() == old(self).viewer(),
            final(entity_adapter).facts() == old(entity_adapter).facts(),
            ({
                let (st, shown) = render(
                    (old(self).text_state(), old(self).dot_supressed()),
                    old(self).pending(),
                    old(self).viewer(),
                    old(entity_adapter).facts(),
                );
                &&& (final(self).text_state(), final(self).dot_supressed()) == st
                &&& final(entity_adapter).shown() == old(entity_adapter).shown() + shown
            }),
    {
        let ghost facts = entity_adapter.facts();
        let ghost shown0 = entity_adapter.shown();
        let ghost target = render(
            (self.text_state(), self.supress_dot),
            self.pending(),
            self.who,
            facts,
        );
        if self.builder.open {
            self.builder.queue_adapter.push(FragmentEntry(Fragment::EndOfLine));
            self.builder.open = false;
        }
        assert(render((self.text_state(), self.supress_dot), self.builder.queue(), self.who, facts)
            == target);
        assert(entity_adapter.shown() + target.1 =~= shown0 + target.1);
        loop
            invariant
                !self.builder.open,
                self.who == old(self).who,
                entity_adapter.facts() == facts,
                render((self.text_state(), self.supress_dot), self.builder.queue(), self.who, facts).0
                    == target.0,
                entity_adapter.shown() + render(
                    (self.text_state(), self.supress_dot),
                    self.builder.queue(),
                    self.who,
                    facts,
                ).1 == shown0 + target.1,
            ensures
                self.builder.queue().len() == 0,
                !self.builder.open,
                self.who == old(self).who,
                entity_adapter.facts() == facts,
                (self.text_state(), self.supress_dot) == target.0,
                entity_adapter.shown() == shown0 + target.1,
            decreases self.builder.queue().len(),
        {
            let ghost fs = self.builder.queue();
            let ghost st0: RenderState = (self.text_state(), self.supress_dot);
            let ghost shown_before = entity_adapter.shown();
            let popped = self.builder.queue_adapter.pop();
            let frag = match popped {
                Some(FragmentEntry(frag)) => frag,
                None => {
                    assert(entity_adapter.shown() + Seq::<Shown>::empty() =~= entity_adapter.shown());
                    break;
                },
            };
            let ghost rest = fs.drop_first();
            let ghost step = render_fragment(st0, fs[0].0, self.who, facts);
            assert(self.builder.queue() == rest);
            let who = self.who;
            self.process_fragment(frag, entity_adapter);
            proof {
                assert((self.text_state(), self.supress_dot) == step.0);
                let later = render(step.0, rest, who, facts);
                assert(render(st0, fs, who, facts) == (later.0, step.1 + later.1));
                assert(shown_before + step.1 + later.1 =~= shown_before + (step.1 + later.1));
            }
        }
    }
}

/// The first character of `s`, if any.
fn first_char(s: &str) -> (r: Option<char>)
    ensures
        r == (if s@.len() == 0 {
            None
        } else {
            Some(s@[0])
        }),
{
    let mut it = s.chars();
    let r = it.next();
    proof {
        broadcast use vstd::string::next_postcondition;
    }
    r
}

} // verus!
