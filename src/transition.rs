use vstd::prelude::*;
use crate::target::copy_strings;

verus! {

/// A kind of content that a transition can apply to.
#[derive(Debug, Clone, Copy, PartialEq, Eq, Structural)]
pub enum MediaType {
    Popups,
    Audio,
    Notifications,
    Links,
    Prompts,
    Wallpaper,
}

/// How a transition moves from one stage to the next.
#[derive(Debug, Clone, Copy, PartialEq, Eq, Structural)]
pub enum TransitionType {
    /// The next stage's tags become more likely as the stage's time runs out.
    Linear,
    /// The next stage's tags apply at once.
    Abrupt,
}

/// In which order the stages come.
#[derive(Debug, Clone, Copy, PartialEq, Eq, Structural)]
pub enum Order {
    Sequential,
    Random,
}

/// The content kinds that a transition applies to.
pub enum TransitionApplyTo {
    All,
    Only(Vec<MediaType>),
}

/// One stage of a transition: the tags that content is drawn from.
pub struct TransitionItem {
    pub tags: Option<Vec<String>>,
}

/// A time-based rotation through tag sets.
pub struct Transition {
    pub transition: TransitionType,
    pub apply_to: TransitionApplyTo,
    pub order: Order,
    pub loop_items: bool,
    pub items: Vec<TransitionItem>,
}

/// Descriptive data of a pack.
pub struct Metadata {
    pub name: String,
    pub creator: Option<String>,
    pub description: Option<String>,
    pub version: Option<String>,
    pub transition: Option<Transition>,
}

/// How long one stage lasts, in milliseconds.
pub const STAGE_MILLIS: u64 = 120_000;

/// The tags of a stage; a stage without tags has none.
pub open spec fn stage_tags(item: TransitionItem) -> Seq<String> {
    match item.tags {
        Some(v) => v@,
        None => Seq::empty(),
    }
}

fn copy_stage_tags(item: &TransitionItem) -> (r: Vec<String>)
    ensures
        r@ == stage_tags(*item),
{
    match &item.tags {
        Some(v) => copy_strings(v),
        None => Vec::new(),
    }
}

/// Relies on `rand::seq::SliceRandom::shuffle`: the stages come out in some order, each
/// exactly once.
#[verifier::external_body]
fn shuffle_stages(items: &mut Vec<TransitionItem>)
    ensures
        final(items)@.to_multiset() == old(items)@.to_multiset(),
        final(items)@.len() == old(items)@.len(),
{
    rand::seq::SliceRandom::shuffle(items.as_mut_slice(), &mut rand::rng())
}

/// Relies on `rand::random_ratio`: true with chance `numerator / denominator`; never
/// true for a numerator of zero, always for one equal to the denominator.
#[verifier::external_body]
fn chance(numerator: u32, denominator: u32) -> (r: bool)
    requires
        0 < denominator,
        numerator <= denominator,
    ensures
        numerator == 0 ==> !r,
        numerator == denominator ==> r,
{
    rand::random_ratio(numerator, denominator)
}

/// `b` is `a` moved on by one stage: before the last stage, to the next one; after the
/// last, back to the first where the transition loops (in random order, with the stages
/// reshuffled), and nowhere where it does not. The upcoming tags become current and the
/// new position's stage comes up.
pub open spec fn advanced(a: TransitionManager, b: TransitionManager) -> bool {
    let last = a.position() == a.stages().len() - 1;
    &&& b.kind() == a.kind() && b.loops() == a.loops() && b.order() == a.order()
    &&& last && !a.loops() ==> b.position() == a.position() && b.stages() == a.stages()
        && b.current() == a.current() && b.upcoming() == a.upcoming()
    &&& !last ==> b.position() == a.position() + 1 && b.stages() == a.stages() && b.current()
        == a.upcoming() && b.upcoming() == stage_tags(a.stages()[a.position() + 1])
    &&& last && a.loops() ==> b.position() == 0 && b.current() == a.upcoming() && b.upcoming()
        == stage_tags(b.stages()[0]) && b.stages().to_multiset() == a.stages().to_multiset() && (
    a.order() == Order::Sequential ==> b.stages() == a.stages())
}

/// Runs a pack's transition: which stage's tags apply, and when to move on. Times are
/// milliseconds on one clock that the caller reads.
pub struct TransitionManager {
    transition: Transition,
    last_switch: u64,
    duration: u64,
    current_tags: Vec<String>,
    next_tags: Vec<String>,
    index: usize,
}

impl TransitionManager {
    pub closed spec fn stages(&self) -> Seq<TransitionItem> {
        self.transition.items@
    }

    pub closed spec fn position(&self) -> int {
        self.index as int
    }

    pub closed spec fn current(&self) -> Seq<String> {
        self.current_tags@
    }

    pub closed spec fn upcoming(&self) -> Seq<String> {
        self.next_tags@
    }

    pub closed spec fn order(&self) -> Order {
        self.transition.order
    }

    pub closed spec fn loops(&self) -> bool {
        self.transition.loop_items
    }

    pub closed spec fn kind(&self) -> TransitionType {
        self.transition.transition
    }

    pub closed spec fn started(&self) -> u64 {
        self.last_switch
    }

    pub closed spec fn wf(&self) -> bool {
        &&& self.transition.items@.len() >= 2
        &&& self.index < self.transition.items@.len()
        &&& self.next_tags@ == stage_tags(self.transition.items@[self.index as int])
        &&& self.duration == STAGE_MILLIS
    }

    /// Starts a transition at time `now`: in random order the stages are shuffled first;
    /// the first stage's tags apply, moving towards the second's.
    pub fn new(transition: Transition, now: u64) -> (r: Self)
        requires
            transition.items@.len() >= 2,
        ensures
            r.wf(),
            r.position() == 1,
            r.current() == stage_tags(r.stages()[0]),
            r.upcoming() == stage_tags(r.stages()[1]),
            r.stages().to_multiset() == transition.items@.to_multiset(),
            transition.order == Order::Sequential ==> r.stages() == transition.items@,
            r.kind() == transition.transition,
            r.started() == now,
            forall|k: MediaType|
                #[trigger] r.applies_spec(k) == match transition.apply_to {
                    TransitionApplyTo::All => true,
                    TransitionApplyTo::Only(kinds) => kinds@.contains(k),
                },
    {
        let mut transition = transition;
        if transition.order == Order::Random {
            shuffle_stages(&mut transition.items);
        }
        let current_tags = copy_stage_tags(&transition.items[0]);
        let next_tags = copy_stage_tags(&transition.items[1]);
        TransitionManager {
            transition,
            last_switch: now,
            duration: STAGE_MILLIS,
            current_tags,
            next_tags,
            index: 1,
        }
    }

    /// Moves to the next stage: the upcoming tags become current and the following
    /// stage's tags come up. After the last stage it starts over where the transition
    /// loops (reshuffling in random order) and stays put where it does not.
    fn switch(&mut self)
        requires
            old(self).wf(),
        ensures
            final(self).wf(),
            final(self).kind() == old(self).kind(),
            forall|k: MediaType| #[trigger] final(self).applies_spec(k) == old(self).applies_spec(k),
            final(self).started() == old(self).started(),
            advanced(*old(self), *final(self)),
            old(self).position() == old(self).stages().len() - 1 && !old(self).loops()
                ==> *final(self) == *old(self),
            old(self).position() < old(self).stages().len() - 1 ==> final(self).position()
                == old(self).position() + 1 && final(self).stages() == old(self).stages()
                && final(self).current() == old(self).upcoming() && final(self).upcoming()
                == stage_tags(old(self).stages()[old(self).position() + 1]),
    {
        let len = self.transition.items.len();
        if self.index == len - 1 {
            if !self.transition.loop_items {
                return;
            } else if self.transition.order == Order::Random {
                shuffle_stages(&mut self.transition.items);
            }
        }
        self.index = if self.index + 1 == len {
            0
        } else {
            self.index + 1
        };
        let next_tags = copy_stage_tags(&self.transition.items[self.index]);
        std::mem::swap(&mut self.current_tags, &mut self.next_tags);
        self.next_tags = next_tags;
    }

    /// At time `now`, moves to the next stage where the current one has lasted longer
    /// than its duration, and says whether it did.
    pub fn try_switch(&mut self, now: u64) -> (r: bool)
        requires
            old(self).wf(),
        ensures
            final(self).wf(),
            r <==> now > old(self).started() && now - old(self).started() > STAGE_MILLIS,
            r ==> final(self).started() == now && advanced(*old(self), *final(self)),
            forall|k: MediaType| #[trigger] final(self).applies_spec(k) == old(self).applies_spec(k),
            !r ==> *final(self) == *old(self),
    {
        if now > self.last_switch && now - self.last_switch > self.duration {
            let ghost before = *self;
            self.switch();
            let ghost mid = *self;
            self.last_switch = now;
            assert forall|k: MediaType| #[trigger] self.applies_spec(k) == before.applies_spec(k) by {
                assert(self.applies_spec(k) == mid.applies_spec(k));
            }
            assert(self.stages() == mid.stages() && self.position() == mid.position()
                && self.current() == mid.current() && self.upcoming() == mid.upcoming()
                && self.kind() == mid.kind() && self.loops() == mid.loops() && self.order()
                == mid.order());
            true
        } else {
            false
        }
    }

    /// Whether the transition applies to a kind of content.
    pub fn applies_to(&self, media_type: &MediaType) -> (r: bool)
        ensures
            r == self.applies_spec(*media_type),
    {
        match &self.transition.apply_to {
            TransitionApplyTo::All => true,
            TransitionApplyTo::Only(kinds) => {
                let mut i: usize = 0;
                while i < kinds.len()
                    invariant
                        i <= kinds@.len(),
                        self.transition.apply_to == TransitionApplyTo::Only(*kinds),
                        forall|k: int| 0 <= k < i ==> kinds@[k] != *media_type,
                    decreases kinds@.len() - i,
                {
                    if kinds[i] == *media_type {
                        assert(kinds@[i as int] == *media_type);
                        return true;
                    }
                    i = i + 1;
                }
                false
            },
        }
    }

    /// The tags to draw content of a kind from at time `now`, or `None` where the
    /// transition does not apply to that kind. An abrupt transition gives the upcoming
    /// stage's tags; a linear one gives them with a chance that grows with the time the
    /// current stage has run (none at its start, certain once it has run its duration),
    /// and the current stage's tags otherwise.
    pub fn get_tags(&self, media_type: MediaType, now: u64) -> (r: Option<Vec<String>>)
        requires
            self.wf(),
        ensures
            r is None <==> !self.applies_spec(media_type),
            r matches Some(v) ==> v@ == self.upcoming() || v@ == self.current(),
            r is Some && self.kind() == TransitionType::Abrupt ==> r->0@ == self.upcoming(),
            r is Some && self.kind() == TransitionType::Linear && now >= self.started() && now
                - self.started() >= STAGE_MILLIS ==> r->0@ == self.upcoming(),
            r is Some && self.kind() == TransitionType::Linear && now <= self.started() ==> r->0@
                == self.current(),
    {
        if !self.applies_to(&media_type) {
            return None;
        }
        match self.transition.transition {
            TransitionType::Linear => {
                let elapsed: u64 = if now > self.last_switch {
                    now - self.last_switch
                } else {
                    0
                };
                let part: u32 = if elapsed >= self.duration {
                    STAGE_MILLIS as u32
                } else {
                    elapsed as u32
                };
                if chance(part, STAGE_MILLIS as u32) {
                    Some(copy_strings(&self.next_tags))
                } else {
                    Some(copy_strings(&self.current_tags))
                }
            },
            TransitionType::Abrupt => Some(copy_strings(&self.next_tags)),
        }
    }

    pub closed spec fn applies_spec(&self, media_type: MediaType) -> bool {
        match self.transition.apply_to {
            TransitionApplyTo::All => true,
            TransitionApplyTo::Only(kinds) => kinds@.contains(media_type),
        }
    }
}

} // verus!
