//! Playing a quiz: the questions are put one after another; each answer
//! is judged, scored and answered with a verdict; after the last question
//! the final score is sent.
//!
//! The game is a state machine. `QuizGame::start` and `QuizGame::on_answer`
//! decide; the caller performs the actions they return and hands each
//! answer that arrives to `on_answer`.

use vstd::prelude::*;
use crate::actions::{action_views, push_action, Action, ActionView};
use crate::messages::{
    AlternativeView, answer_is_right, answer_is_valid, correct_answers, correct_positions, invalid_answer_notice,
    list_contains, question_message, question_message_view, IncomingWebsocketAnswer,
    ResultMessageView, WebsocketEndResult, WebsocketMessage, WebsocketResult,
};
use crate::records::{OutgoingQuiz, QuizView};

verus! {

/// The state of a played quiz.
pub struct QuizGame {
    quiz: OutgoingQuiz,
    player_id: Option<i32>,
    position: usize,
    score: i32,
}

/// What the state of a played quiz is: the quiz, the player whose score is
/// stored (if any), the 0-based position of the question being answered,
/// and the score so far.
pub struct GameView {
    pub quiz: QuizView,
    pub player_id: Option<i32>,
    pub position: int,
    pub score: i32,
}

impl View for QuizGame {
    type V = GameView;

    closed spec fn view(&self) -> GameView {
        GameView {
            quiz: self.quiz@,
            player_id: self.player_id,
            position: self.position as int,
            score: self.score,
        }
    }
}

/// A game state is sound: the score counts at most the questions answered,
/// and no more questions are answered than the quiz has.
pub open spec fn game_wf(g: GameView) -> bool {
    0 <= g.score <= g.position <= g.quiz.questions.len()
}

/// Every question has been answered.
pub open spec fn game_over(g: GameView) -> bool {
    g.position == g.quiz.questions.len()
}

/// Whether answer `a` to the question at `position` earns a point: it is
/// acceptable and it picks an alternative marked correct.
pub open spec fn earns_point(quiz: QuizView, position: int, a: IncomingWebsocketAnswer) -> bool {
    let q = quiz.questions[position];
    answer_is_valid(position, q, a) && answer_is_right(q, a)
}

/// The state after answer `a` to the current question: the next question
/// is current, and the score has grown by the point the answer earns.
pub open spec fn after_answer(g: GameView, a: IncomingWebsocketAnswer) -> GameView {
    GameView {
        quiz: g.quiz,
        player_id: g.player_id,
        position: g.position + 1,
        score: if earns_point(g.quiz, g.position, a) {
            (g.score + 1) as i32
        } else {
            g.score
        },
    }
}

/// What comes next in a state: the current question, or, when every
/// question is answered, the closing message with the score.
pub open spec fn next_actions(g: GameView) -> Seq<ActionView> {
    if g.position < g.quiz.questions.len() {
        seq![ActionView::SendQuestion(question_message_view(g.position, g.quiz.questions[g.position]))]
    } else {
        seq![ActionView::SendEnd(WebsocketEndResult { message_type: WebsocketMessage::End, score: g.score })]
    }
}

/// What answer `a` to the current question is answered with.
///
/// An unacceptable answer gets a plain notice and nothing is scored. An
/// acceptable one gets, in order: the stored score of the player where it
/// earned a point and a player is known; the verdict, with the question's
/// number, whether the answer was right, the score and the numbers of the
/// correct alternatives; and a pause of three seconds. Either way what
/// comes next follows (`next_actions`).
pub open spec fn answer_actions(g: GameView, a: IncomingWebsocketAnswer) -> Seq<ActionView> {
    let q = g.quiz.questions[g.position];
    let after = after_answer(g, a);
    if !answer_is_valid(g.position, q, a) {
        seq![ActionView::SendNotice(invalid_answer_notice())] + next_actions(after)
    } else {
        let right = answer_is_right(q, a);
        let save = if right && g.player_id is Some {
            seq![ActionView::SaveScore { player_id: g.player_id->0, score: after.score }]
        } else {
            Seq::<ActionView>::empty()
        };
        save + seq![
            ActionView::SendResult(
                ResultMessageView {
                    message_type: WebsocketMessage::Result,
                    index: (g.position + 1) as usize,
                    correct: right,
                    score: after.score,
                    correct_answers: correct_positions(q.answers),
                },
            ),
            ActionView::Pause { seconds: 3 },
        ] + next_actions(after)
    }
}

/// An answer earns a point exactly when it names the current question and
/// an existing alternative (numbered from 1) that is marked correct; an
/// alternative marked false, or not marked, earns nothing.
pub proof fn lemma_point_iff_marked_correct(quiz: QuizView, position: int, a: IncomingWebsocketAnswer)
    requires
        0 <= position < quiz.questions.len(),
        quiz.questions[position].answers.len() <= usize::MAX,
    ensures
        earns_point(quiz, position, a) <==> (a.index == position + 1 && 1 <= a.answer
            <= quiz.questions[position].answers.len() && quiz.questions[position].answers[a.answer
            - 1].correct == Some(true)),
{
    let q = quiz.questions[position];
    if 1 <= a.answer <= q.answers.len() {
        crate::messages::lemma_right_iff_marked_correct(q, a);
    }
}

/// What an answer to the current question does to the score: one point
/// exactly for an answer that names the current question and an existing
/// alternative marked correct, otherwise nothing; and the verdict (sent
/// for an acceptable answer) says right exactly in the first case.
pub proof fn lemma_answer_scoring(g: GameView, a: IncomingWebsocketAnswer)
    requires
        game_wf(g),
        !game_over(g),
        g.score < i32::MAX,
        g.quiz.questions[g.position].answers.len() <= usize::MAX,
    ensures
        ({
            let q = g.quiz.questions[g.position];
            let marked = a.index == g.position + 1 && 1 <= a.answer <= q.answers.len()
                && q.answers[a.answer - 1].correct == Some(true);
            &&& after_answer(g, a).score == (if marked { g.score + 1 } else { g.score as int })
            &&& (a.index == g.position + 1 && 1 <= a.answer <= q.answers.len()) ==> (answer_is_right(q, a)
                <==> marked)
        }),
{
    let q = g.quiz.questions[g.position];
    lemma_point_iff_marked_correct(g.quiz, g.position, a);
    if 1 <= a.answer <= q.answers.len() {
        crate::messages::lemma_right_iff_marked_correct(q, a);
    }
}

/// Every verdict among the actions that answer `a` brings says right
/// exactly when `a` names the current question and an existing alternative
/// marked correct, carries the new score, and numbers the question from 1.
pub proof fn lemma_answer_scoring_verdict(g: GameView, a: IncomingWebsocketAnswer)
    requires
        game_wf(g),
        !game_over(g),
        g.score < i32::MAX || !earns_point(g.quiz, g.position, a),
        g.quiz.questions[g.position].answers.len() <= usize::MAX,
    ensures
        forall|k: int|
            0 <= k < answer_actions(g, a).len() ==> (#[trigger] answer_actions(g, a)[k] matches ActionView::SendResult(r)
                ==> r.correct == (a.index == g.position + 1 && 1 <= a.answer
                    <= g.quiz.questions[g.position].answers.len()
                    && g.quiz.questions[g.position].answers[a.answer - 1].correct == Some(true))
                    && r.score == after_answer(g, a).score && r.index == g.position + 1
                    && (forall|j: usize| #[trigger] r.correct_answers.contains(j) <==> (1 <= j
                        <= g.quiz.questions[g.position].answers.len()
                        && g.quiz.questions[g.position].answers[j - 1].correct == Some(true)))),
        // a verdict is sent exactly for an acceptable answer
        (exists|k: int| 0 <= k < answer_actions(g, a).len() && #[trigger] answer_actions(g, a)[k] is SendResult)
            <==> (a.index == g.position + 1 && 1 <= a.answer <= g.quiz.questions[g.position].answers.len()),
        // a score is stored exactly for a point earned by a known player, and it is the new score
        forall|k: int|
            0 <= k < answer_actions(g, a).len() ==> (#[trigger] answer_actions(g, a)[k] matches ActionView::SaveScore { player_id, score }
                ==> g.player_id == Some(player_id) && score == g.score + 1 && a.index == g.position + 1
                    && 1 <= a.answer <= g.quiz.questions[g.position].answers.len()
                    && g.quiz.questions[g.position].answers[a.answer - 1].correct == Some(true)),
        (g.player_id is Some && a.index == g.position + 1 && 1 <= a.answer
            <= g.quiz.questions[g.position].answers.len()
            && g.quiz.questions[g.position].answers[a.answer - 1].correct == Some(true)) ==> answer_actions(g, a)[0]
            == (ActionView::SaveScore { player_id: g.player_id->0, score: (g.score + 1) as i32 }),
{
    let q = g.quiz.questions[g.position];
    lemma_point_iff_marked_correct(g.quiz, g.position, a);
    if 1 <= a.answer <= q.answers.len() {
        crate::messages::lemma_right_iff_marked_correct(q, a);
    }
    let after = after_answer(g, a);
    let tail = next_actions(after);
    assert forall|k: int| 0 <= k < tail.len() implies !(#[trigger] tail[k] is SendResult) by {}
    let acts = answer_actions(g, a);
    crate::messages::lemma_correct_positions(q.answers);
    assert forall|k: int| 0 <= k < acts.len() implies (#[trigger] acts[k] matches ActionView::SendResult(r)
        ==> r.correct == (a.index == g.position + 1 && 1 <= a.answer <= q.answers.len()
            && q.answers[a.answer - 1].correct == Some(true))
            && r.score == after.score && r.index == g.position + 1
            && (forall|j: usize| #[trigger] r.correct_answers.contains(j) <==> (1 <= j <= q.answers.len()
                && q.answers[j - 1].correct == Some(true)))) by {
        if answer_is_valid(g.position, q, a) {
            let right = answer_is_right(q, a);
            let save = if right && g.player_id is Some {
                seq![ActionView::SaveScore { player_id: g.player_id->0, score: after.score }]
            } else {
                Seq::<ActionView>::empty()
            };
            let mid = seq![
                ActionView::SendResult(
                    ResultMessageView {
                        message_type: WebsocketMessage::Result,
                        index: (g.position + 1) as usize,
                        correct: right,
                        score: after.score,
                        correct_answers: correct_positions(q.answers),
                    },
                ),
                ActionView::Pause { seconds: 3 },
            ];
            assert(acts == save + mid + tail);
            if k < save.len() {
                assert(acts[k] == save[k]);
            } else if k < save.len() + mid.len() {
                assert(acts[k] == mid[k - save.len()]);
            } else {
                assert(acts[k] == tail[k - save.len() - mid.len()]);
            }
        } else {
            let notice = seq![ActionView::SendNotice(invalid_answer_notice())];
            assert(acts == notice + tail);
            if k >= 1 {
                assert(acts[k] == tail[k - 1]);
            }
        }
    }
    assert forall|k: int| 0 <= k < acts.len() implies (#[trigger] acts[k] matches ActionView::SaveScore { player_id, score }
        ==> g.player_id == Some(player_id) && score == g.score + 1 && a.index == g.position + 1
            && 1 <= a.answer <= q.answers.len() && q.answers[a.answer - 1].correct == Some(true)) by {
        if answer_is_valid(g.position, q, a) {
            let right = answer_is_right(q, a);
            let save = if right && g.player_id is Some {
                seq![ActionView::SaveScore { player_id: g.player_id->0, score: after.score }]
            } else {
                Seq::<ActionView>::empty()
            };
            let mid = seq![
                ActionView::SendResult(
                    ResultMessageView {
                        message_type: WebsocketMessage::Result,
                        index: (g.position + 1) as usize,
                        correct: right,
                        score: after.score,
                        correct_answers: correct_positions(q.answers),
                    },
                ),
                ActionView::Pause { seconds: 3 },
            ];
            assert(acts == save + mid + tail);
            if k < save.len() {
                assert(acts[k] == save[k]);
            } else if k < save.len() + mid.len() {
                assert(acts[k] == mid[k - save.len()]);
            } else {
                assert(acts[k] == tail[k - save.len() - mid.len()]);
            }
        } else {
            let notice = seq![ActionView::SendNotice(invalid_answer_notice())];
            assert(acts == notice + tail);
            if k >= 1 {
                assert(acts[k] == tail[k - 1]);
            }
        }
    }
    if answer_is_valid(g.position, q, a) {
        let right = answer_is_right(q, a);
        let save = if right && g.player_id is Some {
            seq![ActionView::SaveScore { player_id: g.player_id->0, score: after.score }]
        } else {
            Seq::<ActionView>::empty()
        };
        let k = save.len() as int;
        assert(acts[k] is SendResult);
        if right && g.player_id is Some {
            assert(acts[0] == save[0]);
        }
    } else {
        let notice = seq![ActionView::SendNotice(invalid_answer_notice())];
        assert(acts == notice + tail);
        assert forall|k: int| 0 <= k < acts.len() implies !(#[trigger] acts[k] is SendResult) by {
            if k >= 1 {
                assert(acts[k] == tail[k - 1]);
            }
        }
    }
}

/// What comes next is the question at the current position, numbered
/// from 1 and carrying that question's text, image and alternatives in
/// order; once every question is answered, it is the closing message with
/// the score of the state.
pub proof fn lemma_next_actions(g: GameView)
    requires
        game_wf(g),
        g.quiz.questions.len() < usize::MAX,
        g.position < g.quiz.questions.len() ==> g.quiz.questions[g.position].answers.len() <= usize::MAX,
    ensures
        next_actions(g).len() == 1,
        g.position < g.quiz.questions.len() ==> (next_actions(g)[0] matches ActionView::SendQuestion(m) && {
            let q = g.quiz.questions[g.position];
            &&& m.message_type == WebsocketMessage::Question
            &&& m.index == g.position + 1
            &&& m.text == q.text
            &&& m.image_url == q.image_url
            &&& m.alternatives.len() == q.answers.len()
            &&& forall|j: int| 0 <= j < q.answers.len() ==> (#[trigger] m.alternatives[j]).index == j + 1
                && m.alternatives[j].text == q.answers[j].text
        }),
        g.position == g.quiz.questions.len() ==> next_actions(g)[0] == ActionView::SendEnd(
            WebsocketEndResult { message_type: WebsocketMessage::End, score: g.score },
        ),
{
    if g.position < g.quiz.questions.len() {
        let q = g.quiz.questions[g.position];
        crate::messages::lemma_question_message_keeps_order(g.position, q);
        let m = question_message_view(g.position, q);
        assert(next_actions(g)[0] == ActionView::SendQuestion(m));
        assert forall|j: int| 0 <= j < q.answers.len() implies (#[trigger] m.alternatives[j]).index == j + 1
            && m.alternatives[j].text == q.answers[j].text by {
            assert(m.alternatives[j] == (AlternativeView { index: (j + 1) as usize, text: q.answers[j].text }));
        }
    }
}

/// The state after a series of answers, one per question from the current one.
pub open spec fn play(g: GameView, answers: Seq<IncomingWebsocketAnswer>) -> GameView
    decreases answers.len(),
{
    if answers.len() == 0 {
        g
    } else {
        after_answer(play(g, answers.drop_last()), answers.last())
    }
}

/// How many of a series of answers, the first to the question at `start`,
/// earn a point.
pub open spec fn points(quiz: QuizView, start: int, answers: Seq<IncomingWebsocketAnswer>) -> int
    decreases answers.len(),
{
    if answers.len() == 0 {
        0
    } else {
        points(quiz, start, answers.drop_last()) + if earns_point(
            quiz,
            start + answers.len() - 1,
            answers.last(),
        ) {
            1int
        } else {
            0int
        }
    }
}

/// Each answer moves the game on by exactly one question, and the score
/// after a series of answers is the score before plus the number of those
/// answers that earn a point; nothing else changes.
pub proof fn lemma_score_counts_points(g: GameView, answers: Seq<IncomingWebsocketAnswer>)
    requires
        game_wf(g),
        g.position + answers.len() <= g.quiz.questions.len(),
        g.score + answers.len() <= i32::MAX,
    ensures
        play(g, answers).position == g.position + answers.len(),
        play(g, answers).score == g.score + points(g.quiz, g.position, answers),
        play(g, answers).quiz == g.quiz,
        play(g, answers).player_id == g.player_id,
        game_wf(play(g, answers)),
        0 <= points(g.quiz, g.position, answers) <= answers.len(),
    decreases answers.len(),
{
    if answers.len() > 0 {
        let earlier = answers.drop_last();
        lemma_score_counts_points(g, earlier);
        let mid = play(g, earlier);
        assert(play(g, answers) == after_answer(mid, answers.last()));
        assert(points(g.quiz, g.position, answers) == points(g.quiz, g.position, earlier) + if earns_point(
            g.quiz,
            g.position + answers.len() - 1,
            answers.last(),
        ) {
            1int
        } else {
            0int
        });
    }
}

/// The state and first actions of a game of `quiz`; scores are stored for
/// `player_id` where one is given.
pub open spec fn start_view(quiz: QuizView, player_id: Option<i32>) -> GameView {
    GameView { quiz, player_id, position: 0, score: 0 }
}

impl QuizGame {
    /// The state is sound (see `game_wf`).
    pub open spec fn wf(&self) -> bool {
        game_wf(self@)
    }

    /// Appends what comes next (see `next_actions`).
    fn push_next(&self, actions: &mut Vec<Action>)
        requires
            self.wf(),
        ensures
            action_views(final(actions)@) == action_views(old(actions)@) + next_actions(self@),
    {
        let ghost before = action_views(actions@);
        let n_questions = self.quiz.questions.len();
        if self.position < self.quiz.questions.len() {
            let m = question_message(self.position, &self.quiz.questions[self.position]);
            push_action(actions, Action::SendQuestion(m));
        } else {
            push_action(
                actions,
                Action::SendEnd(WebsocketEndResult { message_type: WebsocketMessage::End, score: self.score }),
            );
        }
        assert(action_views(actions@) =~= before + next_actions(self@));
    }

    /// Starts a game of `quiz` at its first question with score 0, and puts
    /// the first question (or, for a quiz without questions, ends at once).
    pub fn start(quiz: OutgoingQuiz, player_id: Option<i32>) -> (res: (QuizGame, Vec<Action>))
        ensures
            res.0@ == start_view(quiz@, player_id),
            res.0.wf(),
            action_views(res.1@) == next_actions(res.0@),
    {
        let game = QuizGame { quiz, player_id, position: 0, score: 0 };
        let mut actions: Vec<Action> = Vec::new();
        assert(action_views(actions@) =~= Seq::<ActionView>::empty());
        game.push_next(&mut actions);
        assert(action_views(actions@) =~= next_actions(game@));
        (game, actions)
    }

    /// Whether every question has been answered.
    pub fn is_finished(&self) -> (r: bool)
        ensures
            r == game_over(self@),
    {
        self.position == self.quiz.questions.len()
    }

    /// The score so far.
    pub fn score(&self) -> (r: i32)
        ensures
            r == self@.score,
    {
        self.score
    }

    /// Whether answer `a` to the current question would earn a point.
    pub fn would_earn_point(&self, a: IncomingWebsocketAnswer) -> (r: bool)
        requires
            self.wf(),
            !game_over(self@),
        ensures
            r == earns_point(self@.quiz, self@.position, a),
            r == (a.index == self@.position + 1 && 1 <= a.answer
                <= self@.quiz.questions[self@.position].answers.len()
                && self@.quiz.questions[self@.position].answers[a.answer - 1].correct == Some(true)),
    {
        proof {
            assert(self.quiz.questions@[self.position as int]@.answers.len() == self.quiz.questions@[self.position as int].answers.len());
            lemma_point_iff_marked_correct(self@.quiz, self@.position, a);
        }
        let n_questions = self.quiz.questions.len();
        let q = &self.quiz.questions[self.position];
        if a.answer == 0 || a.answer > q.answers.len() || a.index != self.position + 1 {
            false
        } else {
            let list = correct_answers(q);
            list_contains(&list, a.answer)
        }
    }

    /// Judges answer `a` to the current question, moves on to the next
    /// question, and says what to do (see `answer_actions`).
    ///
    /// The score is an `i32`: a point earned at score `i32::MAX` would
    /// overflow it.
    pub fn on_answer(&mut self, a: IncomingWebsocketAnswer) -> (actions: Vec<Action>)
        requires
            old(self).wf(),
            !game_over(old(self)@),
            !(earns_point(old(self)@.quiz, old(self)@.position, a) && old(self)@.score == i32::MAX),
        ensures
            final(self).wf(),
            final(self)@ == after_answer(old(self)@, a),
            action_views(actions@) == answer_actions(old(self)@, a),
            final(self)@.position == old(self)@.position + 1,
            ({
                let q = old(self)@.quiz.questions[old(self)@.position];
                let marked = a.index == old(self)@.position + 1 && 1 <= a.answer <= q.answers.len()
                    && q.answers[a.answer - 1].correct == Some(true);
                &&& final(self)@.score == (if marked { old(self)@.score + 1 } else { old(self)@.score as int })
                &&& forall|k: int|
                    0 <= k < actions@.len() ==> (#[trigger] actions@[k]@ matches ActionView::SendResult(r)
                        ==> r.correct == marked && r.score == final(self)@.score && r.index == old(self)@.position + 1)
            }),
    {
        proof {
            assert(self.quiz.questions@[self.position as int]@.answers.len() == self.quiz.questions@[self.position as int].answers.len());
            lemma_point_iff_marked_correct(self@.quiz, self@.position, a);
        }
        let ghost g = self@;
        let pos = self.position;
        let n_questions = self.quiz.questions.len();
        assert(pos < n_questions);
        let mut actions: Vec<Action> = Vec::new();
        assert(action_views(actions@) =~= Seq::<ActionView>::empty());
        let n_answers = self.quiz.questions[pos].answers.len();
        assert(self.quiz.questions@[pos as int]@.answers.len() == n_answers);
        if a.answer == 0 || a.answer > n_answers || a.index != pos + 1 {
            push_action(&mut actions, Action::SendNotice("This is supposed to never happen".to_owned()));
        } else {
            let list = correct_answers(&self.quiz.questions[pos]);
            let right = list_contains(&list, a.answer);
            if right {
                self.score = self.score + 1;
                match self.player_id {
                    Some(player_id) => {
                        push_action(&mut actions, Action::SaveScore { player_id, score: self.score });
                    },
                    None => {},
                }
            }
            let verdict = WebsocketResult {
                message_type: WebsocketMessage::Result,
                index: pos + 1,
                correct: right,
                score: self.score,
                correct_answers: list,
            };
            push_action(&mut actions, Action::SendResult(verdict));
            push_action(&mut actions, Action::Pause { seconds: 3 });
        }
        self.position = pos + 1;
        self.push_next(&mut actions);
        assert(self@ == after_answer(g, a));
        assert(action_views(actions@) =~= answer_actions(g, a));
        proof {
            lemma_answer_scoring_verdict(g, a);
            assert forall|k: int| 0 <= k < actions@.len() implies (#[trigger] actions@[k]@ matches ActionView::SendResult(r)
                ==> r.correct == (a.index == g.position + 1 && 1 <= a.answer <= g.quiz.questions[g.position].answers.len()
                    && g.quiz.questions[g.position].answers[a.answer - 1].correct == Some(true))
                    && r.score == self@.score && r.index == g.position + 1) by {
                assert(action_views(actions@)[k] == actions@[k]@);
            }
        }
        actions
    }
}

} // verus!
