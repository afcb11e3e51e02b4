//! The messages of the websocket protocol in which a quiz is played, and
//! the pure functions that build them from a quiz.
//!
//! Questions and their alternatives are numbered from 1 on the wire.

use vstd::prelude::*;
use crate::records::{
    copy_opt_text, opt_text, AnswerView, NewQuestion, OutgoingQuiz, Player, PlayerView,
    QuestionView,
};

verus! {

/// The kind of an outgoing message.
#[derive(Clone, Copy, Debug, PartialEq, Eq, Structural)]
pub enum WebsocketMessage {
    Quiz,
    Question,
    Result,
    End,
    PlayerResults,
}

/// The opening message: what quiz is about to be played.
pub struct WebsocketQuiz {
    pub message_type: WebsocketMessage,
    pub name: String,
    pub description: String,
    pub num_questions: usize,
}

/// One alternative of a question, numbered from 1.
pub struct WebsocketAnswer {
    pub index: usize,
    pub text: String,
}

/// A question put to the player, numbered from 1.
pub struct WebsocketQuestion {
    pub message_type: WebsocketMessage,
    pub index: usize,
    pub text: String,
    pub image_url: Option<String>,
    pub alternatives: Vec<WebsocketAnswer>,
}

/// The verdict on the player's answer to a question.
pub struct WebsocketResult {
    pub message_type: WebsocketMessage,
    pub index: usize,
    pub correct: bool,
    pub score: i32,
    pub correct_answers: Vec<usize>,
}

/// The standing of all players of a session.
pub struct WebsocketPlayerResult {
    pub message_type: WebsocketMessage,
    pub players: Vec<Player>,
    pub game_ended: bool,
}

/// The player's answer: the number of the question and of the alternative.
#[derive(Clone, Copy, Debug)]
pub struct IncomingWebsocketAnswer {
    pub index: usize,
    pub answer: usize,
}

/// The closing message of a played quiz: the final score.
#[derive(Clone, Copy, Debug)]
pub struct WebsocketEndResult {
    pub message_type: WebsocketMessage,
    pub score: i32,
}

/// What the opening message says.
pub struct QuizHeaderView {
    pub message_type: WebsocketMessage,
    pub name: Seq<char>,
    pub description: Seq<char>,
    pub num_questions: usize,
}

/// What an alternative says.
pub struct AlternativeView {
    pub index: usize,
    pub text: Seq<char>,
}

/// What a question message says.
pub struct QuestionMessageView {
    pub message_type: WebsocketMessage,
    pub index: usize,
    pub text: Seq<char>,
    pub image_url: Option<Seq<char>>,
    pub alternatives: Seq<AlternativeView>,
}

/// What a verdict message says.
pub struct ResultMessageView {
    pub message_type: WebsocketMessage,
    pub index: usize,
    pub correct: bool,
    pub score: i32,
    pub correct_answers: Seq<usize>,
}

/// What a standings message says.
pub struct PlayerResultView {
    pub message_type: WebsocketMessage,
    pub players: Seq<PlayerView>,
    pub game_ended: bool,
}

impl View for WebsocketQuiz {
    type V = QuizHeaderView;

    open spec fn view(&self) -> QuizHeaderView {
        QuizHeaderView {
            message_type: self.message_type,
            name: self.name@,
            description: self.description@,
            num_questions: self.num_questions,
        }
    }
}

impl View for WebsocketAnswer {
    type V = AlternativeView;

    open spec fn view(&self) -> AlternativeView {
        AlternativeView { index: self.index, text: self.text@ }
    }
}

impl View for WebsocketQuestion {
    type V = QuestionMessageView;

    open spec fn view(&self) -> QuestionMessageView {
        QuestionMessageView {
            message_type: self.message_type,
            index: self.index,
            text: self.text@,
            image_url: opt_text(self.image_url),
            alternatives: self.alternatives@.map_values(|a: WebsocketAnswer| a@),
        }
    }
}

impl View for WebsocketResult {
    type V = ResultMessageView;

    open spec fn view(&self) -> ResultMessageView {
        ResultMessageView {
            message_type: self.message_type,
            index: self.index,
            correct: self.correct,
            score: self.score,
            correct_answers: self.correct_answers@,
        }
    }
}

impl View for WebsocketPlayerResult {
    type V = PlayerResultView;

    open spec fn view(&self) -> PlayerResultView {
        PlayerResultView {
            message_type: self.message_type,
            players: self.players@.map_values(|p: Player| p@),
            game_ended: self.game_ended,
        }
    }
}

/// The opening message for a quiz.
pub open spec fn quiz_header_view(name: Seq<char>, description: Seq<char>, num_questions: usize) -> QuizHeaderView {
    QuizHeaderView { message_type: WebsocketMessage::Quiz, name, description, num_questions }
}

/// The message that puts the question at (0-based) `position`: it carries
/// the number `position + 1`, the question's text and image, and its
/// answers' texts numbered from 1 in order.
pub open spec fn question_message_view(position: int, q: QuestionView) -> QuestionMessageView {
    QuestionMessageView {
        message_type: WebsocketMessage::Question,
        index: (position + 1) as usize,
        text: q.text,
        image_url: q.image_url,
        alternatives: Seq::new(
            q.answers.len(),
            |j: int| AlternativeView { index: (j + 1) as usize, text: q.answers[j].text },
        ),
    }
}

/// The numbers (from 1, ascending) of the answers that are marked correct.
/// An answer whose mark is missing counts as not correct.
pub open spec fn correct_positions(answers: Seq<AnswerView>) -> Seq<usize>
    decreases answers.len(),
{
    if answers.len() == 0 {
        seq![]
    } else if answers.last().correct == Some(true) {
        correct_positions(answers.drop_last()).push(answers.len() as usize)
    } else {
        correct_positions(answers.drop_last())
    }
}

/// The numbers of the correct answers are exactly the numbers `k` from 1 to
/// the number of answers whose answer `k` is marked correct, and they come
/// in strictly ascending order.
pub proof fn lemma_correct_positions(answers: Seq<AnswerView>)
    requires
        answers.len() <= usize::MAX,
    ensures
        forall|k: usize| #[trigger]
            correct_positions(answers).contains(k) <==> (1 <= k <= answers.len() && answers[k - 1].correct
                == Some(true)),
        forall|i: int, j: int|
            0 <= i < j < correct_positions(answers).len() ==> #[trigger] correct_positions(answers)[i]
                < #[trigger] correct_positions(answers)[j],
        forall|i: int|
            0 <= i < correct_positions(answers).len() ==> 1 <= #[trigger] correct_positions(answers)[i]
                <= answers.len(),
    decreases answers.len(),
{
    if answers.len() > 0 {
        let n = answers.len();
        let earlier = answers.drop_last();
        lemma_correct_positions(earlier);
        let prev = correct_positions(earlier);
        let cur = correct_positions(answers);
        assert forall|k: int| 0 <= k < n - 1 implies #[trigger] earlier[k] == answers[k] by {}
        if answers.last().correct == Some(true) {
            assert(cur == prev.push(n as usize));
            assert forall|k: usize| #[trigger]
                cur.contains(k) <==> (1 <= k <= n && answers[k - 1].correct == Some(true)) by {
                if cur.contains(k) && k != n {
                    let w = choose|w: int| 0 <= w < cur.len() && cur[w] == k;
                    assert(w < prev.len());
                    assert(prev[w] == k);
                    assert(prev.contains(k));
                }
                if 1 <= k <= n && answers[k - 1].correct == Some(true) {
                    if k < n {
                        assert(earlier[k - 1] == answers[k - 1]);
                        assert(prev.contains(k));
                        let w = choose|w: int| 0 <= w < prev.len() && prev[w] == k;
                        assert(cur[w] == k);
                    } else {
                        assert(cur[cur.len() - 1] == k);
                    }
                }
            }
            assert forall|i: int, j: int|
                0 <= i < j < cur.len() implies #[trigger] cur[i] < #[trigger] cur[j] by {
                if j == cur.len() - 1 {
                    assert(prev[i] <= n - 1);
                } else {
                    assert(prev[i] < prev[j]);
                }
            }
            assert forall|i: int| 0 <= i < cur.len() implies 1 <= #[trigger] cur[i] <= n by {
                if i < prev.len() {
                    assert(cur[i] == prev[i]);
                }
            }
        } else {
            assert(cur == prev);
            assert forall|k: usize| #[trigger]
                cur.contains(k) <==> (1 <= k <= n && answers[k - 1].correct == Some(true)) by {
                if 1 <= k < n {
                    assert(earlier[k - 1] == answers[k - 1]);
                }
            }
        }
    }
}

/// Whether the player's answer is acceptable for the question at `position`:
/// it names that question, and an alternative that exists.
pub open spec fn answer_is_valid(position: int, q: QuestionView, a: IncomingWebsocketAnswer) -> bool {
    &&& a.answer != 0
    &&& a.answer <= q.answers.len()
    &&& a.index == position + 1
}

/// Whether the player's answer picks an alternative marked correct.
pub open spec fn answer_is_right(q: QuestionView, a: IncomingWebsocketAnswer) -> bool {
    correct_positions(q.answers).contains(a.answer)
}

/// The text that an unacceptable answer is answered with.
pub open spec fn invalid_answer_notice() -> Seq<char> {
    "This is supposed to never happen"@
}

/// An acceptable answer is right exactly when the alternative it names is
/// marked correct: alternative `k` (from 1) is answer `k - 1` of the question.
pub proof fn lemma_right_iff_marked_correct(q: QuestionView, a: IncomingWebsocketAnswer)
    requires
        q.answers.len() <= usize::MAX,
        1 <= a.answer <= q.answers.len(),
    ensures
        answer_is_right(q, a) <==> q.answers[a.answer - 1].correct == Some(true),
{
    lemma_correct_positions(q.answers);
    assert(correct_positions(q.answers).contains(a.answer) <==> (1 <= a.answer <= q.answers.len()
        && q.answers[a.answer - 1].correct == Some(true)));
}

/// The question message numbers the question's answers from 1 in the
/// question's own order: alternative `j` (from 0) carries number `j + 1` and
/// the text of answer `j`; nothing is added, dropped or moved.
pub proof fn lemma_question_message_keeps_order(position: int, q: QuestionView)
    requires
        0 <= position < usize::MAX,
    ensures
        question_message_view(position, q).index == position + 1,
        question_message_view(position, q).text == q.text,
        question_message_view(position, q).image_url == q.image_url,
        question_message_view(position, q).alternatives.len() == q.answers.len(),
        forall|j: int|
            0 <= j < q.answers.len() ==> #[trigger] question_message_view(position, q).alternatives[j]
                == (AlternativeView { index: (j + 1) as usize, text: q.answers[j].text }),
{
}

/// Builds the opening message for a quiz.
pub fn quiz_header(quiz: &OutgoingQuiz) -> (m: WebsocketQuiz)
    ensures
        m@ == quiz_header_view(quiz.name@, quiz.description@, quiz.questions.len()),
        m.message_type == WebsocketMessage::Quiz,
        m.name@ == quiz.name@,
        m.description@ == quiz.description@,
        m.num_questions == quiz.questions.len(),
{
    WebsocketQuiz {
        message_type: WebsocketMessage::Quiz,
        name: quiz.name.clone(),
        description: quiz.description.clone(),
        num_questions: quiz.questions.len(),
    }
}

/// Builds the message that puts a question, given its 0-based position.
pub fn question_message(position: usize, q: &NewQuestion) -> (m: WebsocketQuestion)
    requires
        position < usize::MAX,
    ensures
        m@ == question_message_view(position as int, q@),
        m.index == position + 1,
        m.text@ == q.question_text@,
        m@.image_url == q@.image_url,
        m.alternatives.len() == q.answers.len(),
        forall|j: int|
            0 <= j < q.answers.len() ==> (#[trigger] m.alternatives@[j]).index == j + 1
                && m.alternatives@[j].text@ == q.answers@[j].answer_text@,
{
    let mut alternatives: Vec<WebsocketAnswer> = Vec::new();
    let n = q.answers.len();
    let mut j: usize = 0;
    while j < n
        invariant
            j <= n,
            n == q.answers.len(),
            alternatives@.len() == j,
            forall|k: int|
                0 <= k < j ==> (#[trigger] alternatives@[k])@ == (AlternativeView {
                    index: (k + 1) as usize,
                    text: q@.answers[k].text,
                }),
        decreases n - j,
    {
        alternatives.push(WebsocketAnswer { index: j + 1, text: q.answers[j].answer_text.clone() });
        j = j + 1;
    }
    let m = WebsocketQuestion {
        message_type: WebsocketMessage::Question,
        index: position + 1,
        text: q.question_text.clone(),
        image_url: copy_opt_text(&q.image_url),
        alternatives,
    };
    assert(m@.alternatives =~= question_message_view(position as int, q@).alternatives);
    m
}

/// The numbers of the answers of a question that are marked correct.
pub fn correct_answers(q: &NewQuestion) -> (r: Vec<usize>)
    ensures
        r@ == correct_positions(q@.answers),
        forall|k: usize| #[trigger]
            r@.contains(k) <==> (1 <= k <= q.answers.len() && q.answers@[k - 1].correct == Some(true)),
        forall|i: int, j: int| 0 <= i < j < r@.len() ==> #[trigger] r@[i] < #[trigger] r@[j],
{
    let mut r: Vec<usize> = Vec::new();
    let n = q.answers.len();
    let mut j: usize = 0;
    let ghost answers = q@.answers;
    assert(answers.take(0) =~= Seq::<AnswerView>::empty());
    while j < n
        invariant
            j <= n,
            n == q.answers.len(),
            answers == q@.answers,
            r@ == correct_positions(answers.take(j as int)),
        decreases n - j,
    {
        assert(answers.take(j + 1).drop_last() =~= answers.take(j as int));
        assert(answers.take(j + 1).last() == q.answers@[j as int]@);
        match q.answers[j].correct {
            Some(true) => {
                r.push(j + 1);
            },
            _ => {},
        }
        j = j + 1;
    }
    assert(answers.take(n as int) =~= answers);
    proof {
        lemma_correct_positions(answers);
        assert forall|k: usize| #[trigger] r@.contains(k) <==> (1 <= k <= q.answers.len()
            && q.answers@[k - 1].correct == Some(true)) by {
            if 1 <= k <= q.answers.len() {
                assert(answers[k - 1] == q.answers@[k - 1]@);
            }
        }
    }
    r
}

/// Whether `list` holds `k`.
pub fn list_contains(list: &Vec<usize>, k: usize) -> (r: bool)
    ensures
        r == list@.contains(k),
{
    let mut i: usize = 0;
    while i < list.len()
        invariant
            i <= list.len(),
            forall|j: int| 0 <= j < i ==> list@[j] != k,
        decreases list.len() - i,
    {
        if list[i] == k {
            return true;
        }
        i = i + 1;
    }
    false
}

} // verus!
