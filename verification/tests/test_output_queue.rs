use rouge::langgen::output_queue::OutputQueue;
use rouge::langgen::{EntityAdapter, EntityFacts, FragmentEntry, Gender, ShownLog};
use std::cell::Cell;
use std::collections::VecDeque;

type DebQueue = VecDeque<FragmentEntry<i32>>;

type DebOutputQueue = OutputQueue<i32, DebQueue>;

pub struct DebugEntityAdapter {
    pub buffer: String,
    pub mock_can_see: bool,
    pub mock_is_me: bool,
    pub mock_gender: Gender,
    pub mock_is_thing: bool,
    pub mock_has_short_proper: bool,
    pub mock_short_name: &'static str,
    pub mock_has_long_proper: bool,
    pub mock_long_name: &'static str,
    pub mock_short_plural_name: &'static str,
    pub mock_long_plural_name: &'static str,

    pub last_who: Cell<i32>,
    pub last_obj: Cell<i32>,
}

impl DebugEntityAdapter {
    pub fn new() -> Self {
        Self {
            buffer: String::new(),
            mock_can_see: true,
            mock_is_me: false,
            mock_gender: Gender::Neuter,
            mock_is_thing: false,
            mock_has_short_proper: true,
            mock_short_name: "Kim",
            mock_has_long_proper: false,
            mock_long_name: "spirit of Kim",
            mock_short_plural_name: "Kims",
            mock_long_plural_name: "spirits of Kim",
            last_obj: Cell::new(-1),
            last_who: Cell::new(-2),
        }
    }
}

impl EntityAdapter<i32> for DebugEntityAdapter {
    // The proofs' models of the adapter; never run.
    fn facts(&self) -> EntityFacts<i32> {
        panic!("a model for the proofs")
    }
    fn shown(&self) -> ShownLog {
        panic!("a model for the proofs")
    }
    fn can_see(&self, who: i32, obj: i32) -> bool {
        self.last_who.set(who);
        self.last_obj.set(obj);
        self.mock_can_see
    }

    fn is_me(&self, obj: i32) -> bool {
        self.last_obj.set(obj);
        self.mock_is_me
    }

    fn gender(&self, obj: i32) -> Gender {
        self.last_obj.set(obj);
        self.mock_gender.clone()
    }

    fn is_thing(&self, obj: i32) -> bool {
        self.last_obj.set(obj);
        self.mock_is_thing
    }

    fn has_short_proper(&self, obj: i32) -> bool {
        self.last_obj.set(obj);
        self.mock_has_short_proper
    }

    fn append_short_name(&self, obj: i32, s: &mut String) {
        self.last_obj.set(obj);

        s.push_str(self.mock_short_name);
    }

    fn has_long_proper(&self, obj: i32) -> bool {
        self.last_obj.set(obj);
        self.mock_has_long_proper
    }
    fn append_long_name(&self, obj: i32, s: &mut String) {
        self.last_obj.set(obj);
        s.push_str(self.mock_long_name);
    }

    fn append_short_plural_name(&self, obj: i32, s: &mut String) {
        self.last_obj.set(obj);
        s.push_str(self.mock_short_plural_name);
    }

    fn append_long_plural_name(&self, obj: i32, s: &mut String) {
        self.last_obj.set(obj);
        s.push_str(self.mock_long_plural_name);
    }

    fn write_text(&mut self, text: &str) {
        self.buffer.push_str(text);
    }

    fn set_color(&mut self, color: (u8, u8, u8)) {
        self.write_text(&format!("{:?}", color));
    }

    fn done(&mut self) {
        self.write_text(&"\n");
    }
}

#[test]
fn test_output_queue_output_kim() {
    let mut oq = DebOutputQueue::new(VecDeque::new(), 0);
    oq.the(1);
    let mut dea = DebugEntityAdapter::new();

    oq.process_queue(&mut dea);

    assert_eq!("Kim.\n", dea.buffer);
}

#[test]
fn test_output_queue_output_the_apple() {
    let mut oq = DebOutputQueue::new(VecDeque::new(), 16);
    oq.the(8);

    let mut dea = DebugEntityAdapter::new();
    dea.mock_short_name = "apple";
    dea.mock_has_short_proper = false;
    oq.process_queue(&mut dea);

    assert_eq!("The apple.\n", dea.buffer);
}

#[test]
fn output_advanced_sentance() {
    let mut oq = DebOutputQueue::new(VecDeque::new(), 16);
    oq.the(8)
        .v(8, "look")
        .s("like a \"")
        .s("GMO")
        .s("\" apple")
        .s("someone said");

    let mut dea = DebugEntityAdapter::new();
    dea.mock_short_name = "apple";
    dea.mock_has_short_proper = false;
    oq.process_queue(&mut dea);

    assert_eq!(
        "The apple looks like a \"GMO\" apple someone said.\n",
        dea.buffer
    );
}

#[test]
fn two_sentences_end_each_line() {
    let mut oq = DebOutputQueue::new(VecDeque::new(), 16);
    oq.the(8).v(8, "fall");
    oq.s("It breaks");
    let mut dea = DebugEntityAdapter::new();
    dea.mock_short_name = "apple";
    dea.mock_has_short_proper = false;
    oq.process_queue(&mut dea);
    assert_eq!("The apple falls.\nIt breaks.\n", dea.buffer);
}

#[test]
fn a_word_uses_an_before_vowel() {
    let mut oq = DebOutputQueue::new(VecDeque::new(), 16);
    oq.s("You see").a(8);
    let mut dea = DebugEntityAdapter::new();
    dea.mock_short_name = "apple";
    dea.mock_has_short_proper = false;
    oq.process_queue(&mut dea);
    assert_eq!("You see an apple.\n", dea.buffer);
}

#[test]
fn is_and_has_agree_with_the_subject() {
    let mut oq = DebOutputQueue::new(VecDeque::new(), 16);
    oq.the(8).is(8).s("red");
    let mut dea = DebugEntityAdapter::new();
    dea.mock_short_name = "apple";
    dea.mock_has_short_proper = false;
    oq.process_queue(&mut dea);
    assert_eq!("The apple is red.\n", dea.buffer);
}

#[test]
fn the_viewer_is_you() {
    let mut oq = DebOutputQueue::new(VecDeque::new(), 16);
    oq.the(16).v(16, "hit").the(8);
    let mut dea = DebugEntityAdapter::new();
    dea.mock_is_me = true;
    oq.process_queue(&mut dea);
    assert!(dea.buffer.starts_with("You hit"));
}

#[test]
fn color_is_passed_on() {
    let mut oq = DebOutputQueue::new(VecDeque::new(), 16);
    oq.s("Welcome to").color((255, 0, 0)).s("Rouge");
    let mut dea = DebugEntityAdapter::new();
    oq.process_queue(&mut dea);
    assert_eq!("(255, 0, 0)Welcome to Rouge.\n", dea.buffer);
}

#[test]
fn supress_dot_leaves_out_the_dot() {
    let mut oq = DebOutputQueue::new(VecDeque::new(), 16);
    oq.s("Hello").supress_dot();
    let mut dea = DebugEntityAdapter::new();
    oq.process_queue(&mut dea);
    assert_eq!("Hello\n", dea.buffer);
}

#[test]
fn empty_queue_writes_nothing() {
    let mut oq = DebOutputQueue::new(VecDeque::new(), 16);
    let mut dea = DebugEntityAdapter::new();
    oq.process_queue(&mut dea);
    assert_eq!("", dea.buffer);
}

#[test]
fn possessives_of_seen_objects_and_of_the_viewer() {
    let mut oq = DebOutputQueue::new(VecDeque::new(), 16);
    oq.thes(8);
    oq.thess_(8);
    let mut dea = DebugEntityAdapter::new();
    dea.mock_short_name = "apple";
    dea.mock_has_short_proper = false;
    oq.process_queue(&mut dea);
    assert_eq!("The apple's.\nThe spirit of Kim's.\n", dea.buffer);

    let mut mine = DebOutputQueue::new(VecDeque::new(), 16);
    mine.thes(8);
    mine.thess(8);
    let mut me = DebugEntityAdapter::new();
    me.mock_is_me = true;
    mine.process_queue(&mut me);
    assert_eq!("Your.\nYours.\n", me.buffer);
}

#[test]
fn bare_words_and_owners() {
    let mut oq = DebOutputQueue::new(VecDeque::new(), 16);
    oq.word(1);
    oq.word_(1);
    oq.my(2, 1);
    let mut dea = DebugEntityAdapter::new();
    dea.mock_gender = Gender::Female;
    oq.process_queue(&mut dea);
    assert_eq!("Kim.\nSpirit of Kim.\nHer Kim.\n", dea.buffer);

    let mut unseen = DebOutputQueue::new(VecDeque::new(), 16);
    unseen.word(1);
    unseen.my(2, 1);
    let mut dark = DebugEntityAdapter::new();
    dark.mock_can_see = false;
    unseen.process_queue(&mut dark);
    assert_eq!("Someone.\nSomeone.\n", dark.buffer);

    let mut yours = DebOutputQueue::new(VecDeque::new(), 16);
    yours.word(1);
    yours.my_(1, 2);
    let mut me = DebugEntityAdapter::new();
    me.mock_is_me = true;
    yours.process_queue(&mut me);
    assert_eq!("You.\nYour spirit of Kim.\n", me.buffer);
}

#[test]
fn a_verb_can_start_a_sentence() {
    let mut oq = DebOutputQueue::new(VecDeque::new(), 16);
    oq.v(8, "look").s("around");
    let mut dea = DebugEntityAdapter::new();
    oq.process_queue(&mut dea);
    assert_eq!("Looks around.\n", dea.buffer);

    let mut mine = DebOutputQueue::new(VecDeque::new(), 16);
    mine.v(8, "look");
    let mut me = DebugEntityAdapter::new();
    me.mock_is_me = true;
    mine.process_queue(&mut me);
    assert_eq!("Look.\n", me.buffer);
}

#[test]
fn names_of_unseen_objects_never_show() {
    let mut one = DebOutputQueue::new(VecDeque::new(), 16);
    one.the(8).s("and").a_(8).s("and").thes(8).s("hat");
    let mut dark = DebugEntityAdapter::new();
    dark.mock_can_see = false;
    dark.mock_has_short_proper = false;
    one.process_queue(&mut dark);

    let mut two = DebOutputQueue::new(VecDeque::new(), 16);
    two.the(8).s("and").a_(8).s("and").thes(8).s("hat");
    let mut other = DebugEntityAdapter::new();
    other.mock_can_see = false;
    other.mock_has_short_proper = false;
    other.mock_short_name = "apple";
    other.mock_long_name = "red apple";
    two.process_queue(&mut other);

    assert_eq!(dark.buffer, other.buffer);
    assert_eq!(dark.buffer, "Something and something and something's hat.\n");
}
