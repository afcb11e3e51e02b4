//! The records of a quiz: rows as the database stores them and the
//! nested shape in which a quiz is created and played.

use vstd::prelude::*;

verus! {

/// The text of an optional string, as a sequence of characters.
pub open spec fn opt_text(o: Option<String>) -> Option<Seq<char>> {
    match o {
        Some(s) => Some(s@),
        None => None,
    }
}

/// Copies an optional string.
pub fn copy_opt_text(o: &Option<String>) -> (r: Option<String>)
    ensures
        opt_text(r) == opt_text(*o),
{
    match o {
        Some(s) => Some(s.clone()),
        None => None,
    }
}

/// A stored quiz.
pub struct Quiz {
    pub quiz_id: i32,
    pub name: String,
    pub description: String,
}

/// A stored answer of a question.
pub struct Answer {
    pub answer_id: i32,
    pub answer_text: String,
    pub correct: Option<bool>,
    pub question_id: i32,
}

/// A stored question of a quiz.
pub struct Question {
    pub question_id: i32,
    pub question_text: String,
    pub image_url: Option<String>,
    pub quiz_id: i32,
}

/// One row of the join of a quiz, its questions and their answers: one
/// row per answer, repeating the quiz and question it belongs to.
pub struct FlatQuiz {
    pub quiz_id: i32,
    pub name: String,
    pub description: String,
    pub question_id: i32,
    pub question_text: String,
    pub image_url: Option<String>,
    pub answer_id: i32,
    pub answer_text: String,
    pub correct: Option<bool>,
}

/// A session in which several players play the same quiz.
pub struct Session {
    pub session_id: i32,
    pub quiz_id: i32,
    pub started: bool,
}

/// A player of a session.
pub struct Player {
    pub session_id: i32,
    pub player_id: i32,
    pub score: i32,
    pub finished: bool,
    pub name: String,
    pub host: bool,
}

/// An answer as it is submitted with a new question, and as it is played.
pub struct NewAnswer {
    pub answer_text: String,
    pub correct: Option<bool>,
}

/// A question with its answers, as it is submitted and as it is played.
pub struct NewQuestion {
    pub question_text: String,
    pub image_url: Option<String>,
    pub answers: Vec<NewAnswer>,
}

/// A whole quiz with its questions, in the order in which they are played.
pub struct OutgoingQuiz {
    pub quiz_id: i32,
    pub name: String,
    pub description: String,
    pub questions: Vec<NewQuestion>,
}

/// What an answer says: its text and whether it is marked correct.
pub struct AnswerView {
    pub text: Seq<char>,
    pub correct: Option<bool>,
}

/// What a question says: its text, its image and its answers in order.
pub struct QuestionView {
    pub text: Seq<char>,
    pub image_url: Option<Seq<char>>,
    pub answers: Seq<AnswerView>,
}

/// What a quiz says.
pub struct QuizView {
    pub quiz_id: i32,
    pub name: Seq<char>,
    pub description: Seq<char>,
    pub questions: Seq<QuestionView>,
}

/// What a player record says.
pub struct PlayerView {
    pub session_id: i32,
    pub player_id: i32,
    pub score: i32,
    pub finished: bool,
    pub name: Seq<char>,
    pub host: bool,
}

impl View for NewAnswer {
    type V = AnswerView;

    open spec fn view(&self) -> AnswerView {
        AnswerView { text: self.answer_text@, correct: self.correct }
    }
}

impl View for NewQuestion {
    type V = QuestionView;

    open spec fn view(&self) -> QuestionView {
        QuestionView {
            text: self.question_text@,
            image_url: opt_text(self.image_url),
            answers: self.answers@.map_values(|a: NewAnswer| a@),
        }
    }
}

impl View for OutgoingQuiz {
    type V = QuizView;

    open spec fn view(&self) -> QuizView {
        QuizView {
            quiz_id: self.quiz_id,
            name: self.name@,
            description: self.description@,
            questions: self.questions@.map_values(|q: NewQuestion| q@),
        }
    }
}

impl View for Player {
    type V = PlayerView;

    open spec fn view(&self) -> PlayerView {
        PlayerView {
            session_id: self.session_id,
            player_id: self.player_id,
            score: self.score,
            finished: self.finished,
            name: self.name@,
            host: self.host,
        }
    }
}

impl FlatQuiz {
    /// The answer that this row carries.
    pub open spec fn answer_view(self) -> AnswerView {
        AnswerView { text: self.answer_text@, correct: self.correct }
    }

    /// The question that this row belongs to, holding this row's answer alone.
    pub open spec fn question_view(self) -> QuestionView {
        QuestionView {
            text: self.question_text@,
            image_url: opt_text(self.image_url),
            answers: seq![self.answer_view()],
        }
    }
}

impl NewAnswer {
    /// Copies an answer.
    pub fn copy(&self) -> (r: NewAnswer)
        ensures
            r@ == self@,
    {
        NewAnswer { answer_text: self.answer_text.clone(), correct: self.correct }
    }
}

} // verus!
