use vstd::prelude::*;

use crate::hand::{PlayerHand, Status};

verus! {

/// Every hand of the sequence is well formed.
pub open spec fn all_wf(hands: Seq<PlayerHand>) -> bool {
    forall|i: int| 0 <= i < hands.len() ==> (#[trigger] hands[i]).wf()
}

/// No hand of the sequence is still in play.
pub open spec fn all_finished(hands: Seq<PlayerHand>) -> bool {
    forall|i: int| 0 <= i < hands.len() ==> (#[trigger] hands[i]).status != Status::InPlay
}

/// The player's hands during their turn: the finished ones in the order they
/// were played, the one in play, and the ones that splitting put aside, which
/// are played first-split-first.
#[derive(Debug, Clone, PartialEq, Eq)]
pub struct PlayerTurn {
    pub current_hand: PlayerHand,
    pub finished: Vec<PlayerHand>,
    pub deferred: Vec<PlayerHand>,
}

/// Replacing the hand in play by another well-formed hand keeps the turn well
/// formed and changes only that hand.
pub proof fn lemma_current_replaced(t: PlayerTurn, u: PlayerTurn)
    requires
        t.wf(),
        u.finished@ == t.finished@,
        u.deferred@ == t.deferred@,
        u.current_hand.wf(),
    ensures
        u.wf(),
        u.hands() == t.hands().update(t.position() as int, u.current_hand),
        u.position() == t.position(),
{
    assert(u.hands() =~= t.hands().update(t.position() as int, u.current_hand));
    assert forall|i: int| 0 <= i < u.hands().len() implies (#[trigger] u.hands()[i]).wf() by {
        if i != t.position() {
            assert(u.hands()[i] == t.hands()[i]);
        }
    }
}

impl PlayerTurn {
    /// All the hands of the turn, in the order they are played.
    pub open spec fn hands(self) -> Seq<PlayerHand> {
        self.finished@.push(self.current_hand) + self.deferred@
    }

    /// The number of hands already finished.
    pub open spec fn position(self) -> nat {
        self.finished@.len()
    }

    pub open spec fn wf(self) -> bool {
        &&& all_wf(self.hands())
        &&& self.current_hand.wf()
        &&& all_finished(self.finished@)
    }

    /// The turn begins with a single hand.
    pub fn new(hand: PlayerHand) -> (t: PlayerTurn)
        requires
            hand.wf(),
        ensures
            t.wf(),
            t.hands() == seq![hand],
            t.current_hand == hand,
            t.position() == 0,
    {
        let t = PlayerTurn { current_hand: hand, finished: Vec::new(), deferred: Vec::new() };
        assert(t.hands() =~= seq![hand]);
        t
    }

    /// Puts a hand aside, to be played after those already put aside.
    pub fn defer(&mut self, hand: PlayerHand)
        requires
            old(self).wf(),
            hand.wf(),
        ensures
            final(self).wf(),
            final(self).hands() == old(self).hands().push(hand),
            final(self).current_hand == old(self).current_hand,
            final(self).position() == old(self).position(),
    {
        self.deferred.push(hand);
        assert(self.hands() =~= old(self).hands().push(hand));
    }

    /// Moves on to the first hand still in play, starting with the current
    /// one. Returns the turn when there is such a hand; otherwise the turn is
    /// over and all its hands come back in play order.
    pub fn continue_playing(self) -> (r: Result<PlayerTurn, Vec<PlayerHand>>)
        requires
            self.wf(),
        ensures
            self.current_hand.status == Status::InPlay ==> r == Ok::<PlayerTurn, Vec<PlayerHand>>(
                self,
            ),
            match r {
                Ok(t) => {
                    &&& t.wf()
                    &&& t.hands() == self.hands()
                    &&& t.position() >= self.position()
                    &&& t.current_hand.status == Status::InPlay
                },
                Err(hands) => {
                    &&& hands@ == self.hands()
                    &&& all_wf(hands@)
                    &&& all_finished(hands@)
                },
            },
    {
        if self.current_hand.status == Status::InPlay {
            return Ok(self);
        }
        let ghost all = self.hands();
        let PlayerTurn { current_hand, mut finished, mut deferred } = self;
        let mut current = current_hand;
        while deferred.len() > 0
            invariant
                finished@.push(current) + deferred@ == all,
                all_wf(all),
                all_finished(finished@),
                current.status != Status::InPlay,
                self.current_hand.status != Status::InPlay,
                all == self.hands(),
                finished@.len() >= self.finished@.len(),
            decreases deferred@.len(),
        {
            let ghost before = deferred@;
            finished.push(current);
            current = deferred.remove(0);
            assert(finished@.push(current) + deferred@ =~= all) by {
                assert(before =~= seq![before[0]] + deferred@);
            }
            if current.status == Status::InPlay {
                let t = PlayerTurn { current_hand: current, finished, deferred };
                assert(t.hands() =~= all);
                assert(all[finished@.len() as int] == current);
                assert(t.wf());
                return Ok(t);
            }
        }
        finished.push(current);
        assert(finished@ =~= all);
        Err(finished)
    }
}

} // verus!
