use vstd::prelude::*;
use crate::poll::Poll;

verus! {

/// Abstract state of a `Challenge`.
pub struct ChallengeView {
    pub started: bool,
    pub finished: nat,
    pub accepted: Option<bool>,
    pub score1: Option<isize>,
    pub score2: Option<isize>,
}

/// The outcome announced by the judge: -1 for a declined challenge, 0 for a tie,
/// 1 when the first player scored more, 2 when the second did.
pub open spec fn verdict(accepted: Option<bool>, score1: isize, score2: isize) -> isize {
    if accepted == Some(false) {
        -1isize
    } else if score1 == score2 {
        0
    } else if score1 > score2 {
        1
    } else {
        2
    }
}

impl ChallengeView {
    pub open spec fn initial() -> ChallengeView {
        ChallengeView { started: false, finished: 0, accepted: None, score1: None, score2: None }
    }

    /// The states a challenge can be in: a match starts with the answer to the
    /// challenge, and `finished` counts the scores handed in since.
    pub open spec fn wf(self) -> bool {
        &&& self.started <==> self.accepted is Some
        &&& self.finished == (if self.score1 is Some { 1nat } else { 0nat }) + (if self.score2 is Some { 1nat } else { 0nat })
        &&& !self.started ==> self.finished == 0
    }

    /// `accept` must wait while a match is going on.
    pub open spec fn accept_blocks(self) -> bool {
        self.started
    }

    pub open spec fn after_accept(self, response: bool) -> ChallengeView {
        ChallengeView { started: true, accepted: Some(response), ..self }
    }

    /// A player must wait until the match has started, and while it has already
    /// handed in its score in this match.
    pub open spec fn result1_blocks(self) -> bool {
        !self.started || self.finished == 2 || (self.finished == 1 && self.score1 is Some)
    }

    pub open spec fn after_result1(self, score: isize) -> ChallengeView {
        ChallengeView { finished: self.finished + 1, score1: Some(score), ..self }
    }

    pub open spec fn result2_blocks(self) -> bool {
        !self.started || self.finished == 2 || (self.finished == 1 && self.score2 is Some)
    }

    pub open spec fn after_result2(self, score: isize) -> ChallengeView {
        ChallengeView { finished: self.finished + 1, score2: Some(score), ..self }
    }

    /// The judge waits until both scores of a started match are in.
    pub open spec fn winner_blocks(self) -> bool {
        !self.started || self.finished != 2
    }

    pub open spec fn outcome(self) -> isize {
        verdict(self.accepted, self.score1->0, self.score2->0)
    }
}

/// One challenge at a time between two players, judged by a third party: the
/// second player accepts or refuses, both hand in a score, the judge announces
/// the result and the challenge starts over.
pub struct Challenge {
    started: bool,
    finished: usize,
    accepted: Option<bool>,
    score1: Option<isize>,
    score2: Option<isize>,
}

impl View for Challenge {
    type V = ChallengeView;

    closed spec fn view(&self) -> ChallengeView {
        ChallengeView {
            started: self.started,
            finished: self.finished as nat,
            accepted: self.accepted,
            score1: self.score1,
            score2: self.score2,
        }
    }
}

impl Challenge {
    pub fn new() -> (r: Self)
        ensures
            r@ == ChallengeView::initial(),
            r@.wf(),
    {
        Challenge { started: false, finished: 0, accepted: None, score1: None, score2: None }
    }

    /// The second player answers the challenge.
    pub fn accept(&mut self, response: bool) -> (r: Poll<Result<(), ()>>)
        requires
            old(self)@.wf(),
        ensures
            final(self)@.wf(),
            old(self)@.accept_blocks() ==> r is Pending && final(self)@ == old(self)@,
            !old(self)@.accept_blocks() ==> r == Poll::<Result<(), ()>>::Ready(Ok(()))
                && final(self)@ == old(self)@.after_accept(response),
    {
        if self.started {
            return Poll::Pending;
        }
        if self.accepted.is_some() {
            Poll::Ready(Err(()))
        } else {
            self.started = true;
            self.accepted = Some(response);
            Poll::Ready(Ok(()))
        }
    }

    /// The first player hands in its score.
    pub fn result1(&mut self, score: isize) -> (r: Poll<Result<(), ()>>)
        requires
            old(self)@.wf(),
        ensures
            final(self)@.wf(),
            old(self)@.result1_blocks() ==> r is Pending && final(self)@ == old(self)@,
            !old(self)@.result1_blocks() ==> r == Poll::<Result<(), ()>>::Ready(Ok(()))
                && final(self)@ == old(self)@.after_result1(score),
    {
        if !self.started || self.finished == 2 || (self.finished == 1 && self.score1.is_some()) {
            return Poll::Pending;
        }
        if self.score1.is_some() {
            Poll::Ready(Err(()))
        } else {
            self.finished = self.finished + 1;
            self.score1 = Some(score);
            Poll::Ready(Ok(()))
        }
    }

    /// The second player hands in its score.
    pub fn result2(&mut self, score: isize) -> (r: Poll<Result<(), ()>>)
        requires
            old(self)@.wf(),
        ensures
            final(self)@.wf(),
            old(self)@.result2_blocks() ==> r is Pending && final(self)@ == old(self)@,
            !old(self)@.result2_blocks() ==> r == Poll::<Result<(), ()>>::Ready(Ok(()))
                && final(self)@ == old(self)@.after_result2(score),
    {
        if !self.started || self.finished == 2 || (self.finished == 1 && self.score2.is_some()) {
            return Poll::Pending;
        }
        if self.score2.is_some() {
            Poll::Ready(Err(()))
        } else {
            self.finished = self.finished + 1;
            self.score2 = Some(score);
            Poll::Ready(Ok(()))
        }
    }

    /// The judge announces the result of a completed match and resets the challenge.
    pub fn winner(&mut self) -> (r: Poll<Option<isize>>)
        requires
            old(self)@.wf(),
        ensures
            final(self)@.wf(),
            old(self)@.winner_blocks() ==> r is Pending && final(self)@ == old(self)@,
            !old(self)@.winner_blocks() ==> r == Poll::Ready(Some(old(self)@.outcome()))
                && final(self)@ == ChallengeView::initial(),
    {
        if !self.started || self.finished != 2 {
            return Poll::Pending;
        }
        let result: isize;
        if self.accepted == Some(false) {
            result = -1;
        } else {
            let s1 = self.score1.unwrap();
            let s2 = self.score2.unwrap();
            if s1 == s2 {
                result = 0;
            } else if s1 > s2 {
                result = 1;
            } else {
                result = 2;
            }
        }
        self.started = false;
        self.finished = 0;
        self.accepted = None;
        self.score1 = None;
        self.score2 = None;
        Poll::Ready(Some(result))
    }
}

/// How a match is decided: a refused challenge gives -1 whatever the scores;
/// an accepted one gives 0 exactly when the scores are equal, 1 exactly when
/// the first player scored more, 2 exactly when the second player scored more;
/// and swapping the two scores swaps 1 and 2 and leaves 0 and -1 as they are.
pub proof fn lemma_verdict(accepted: Option<bool>, score1: isize, score2: isize)
    ensures
        accepted == Some(false) ==> verdict(accepted, score1, score2) == -1,
        accepted != Some(false) ==> {
            &&& verdict(accepted, score1, score2) == 0 <==> score1 == score2
            &&& verdict(accepted, score1, score2) == 1 <==> score1 > score2
            &&& verdict(accepted, score1, score2) == 2 <==> score1 < score2
        },
        verdict(accepted, score2, score1) == (if verdict(accepted, score1, score2) == 1 {
            2
        } else if verdict(accepted, score1, score2) == 2 {
            1
        } else {
            verdict(accepted, score1, score2)
        }),
{
}

/// A whole match, with the scores handed in in either order, ends with the
/// judge's verdict and leaves the challenge as it was created.
pub proof fn lemma_match_round_trip(response: bool, score1: isize, score2: isize, first_player_first: bool)
    ensures
        ({
            let s0 = ChallengeView::initial();
            let s1 = s0.after_accept(response);
            let s3 = if first_player_first {
                s1.after_result1(score1).after_result2(score2)
            } else {
                s1.after_result2(score2).after_result1(score1)
            };
            &&& s0.wf() && s1.wf() && s3.wf()
            &&& !s0.accept_blocks()
            &&& s0.result1_blocks() && s0.result2_blocks() && s0.winner_blocks()
            &&& !s1.result1_blocks() && !s1.result2_blocks() && s1.winner_blocks() && s1.accept_blocks()
            &&& first_player_first ==> !s1.after_result1(score1).result2_blocks()
                && s1.after_result1(score1).result1_blocks()
            &&& !first_player_first ==> !s1.after_result2(score2).result1_blocks()
                && s1.after_result2(score2).result2_blocks()
            &&& !s3.winner_blocks()
            &&& s3.outcome() == verdict(Some(response), score1, score2)
        }),
{
}

} // verus!
