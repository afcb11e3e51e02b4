//! Nesting the rows of the quiz/question/answer join into a quiz.
//!
//! The rows come one per answer. Every run of consecutive rows that share
//! a question id becomes one question, whose answers are the rows' answers
//! in row order.

use vstd::prelude::*;
use crate::records::{
    copy_opt_text, opt_text, AnswerView, FlatQuiz, NewAnswer, NewQuestion, OutgoingQuiz,
    QuestionView,
};

verus! {

/// Whether row `i` opens a new question: it is the first row, or its
/// question id differs from that of the row before it.
pub open spec fn opens_question(rows: Seq<FlatQuiz>, i: int) -> bool {
    i == 0 || rows[i - 1].question_id != rows[i].question_id
}

/// The questions that the rows nest into, in order.
pub open spec fn nest_questions(rows: Seq<FlatQuiz>) -> Seq<QuestionView>
    decreases rows.len(),
{
    if rows.len() == 0 {
        seq![]
    } else {
        let earlier = nest_questions(rows.drop_last());
        let row = rows.last();
        if opens_question(rows, rows.len() - 1) {
            earlier.push(row.question_view())
        } else {
            let q = earlier.last();
            earlier.update(
                earlier.len() - 1,
                QuestionView {
                    text: q.text,
                    image_url: q.image_url,
                    answers: q.answers.push(row.answer_view()),
                },
            )
        }
    }
}

/// The answers of the questions, one question after another.
pub open spec fn all_answers(questions: Seq<QuestionView>) -> Seq<AnswerView>
    decreases questions.len(),
{
    if questions.len() == 0 {
        seq![]
    } else {
        all_answers(questions.drop_last()) + questions.last().answers
    }
}

/// The number of rows whose question id differs from the row before.
pub open spec fn id_changes(rows: Seq<FlatQuiz>) -> nat
    decreases rows.len(),
{
    if rows.len() <= 1 {
        0
    } else if rows[rows.len() - 2].question_id != rows[rows.len() - 1].question_id {
        id_changes(rows.drop_last()) + 1
    } else {
        id_changes(rows.drop_last())
    }
}

proof fn lemma_nest_nonempty(rows: Seq<FlatQuiz>)
    requires
        rows.len() > 0,
    ensures
        nest_questions(rows).len() > 0,
    decreases rows.len(),
{
    if rows.len() > 1 {
        lemma_nest_nonempty(rows.drop_last());
    }
}

/// Nesting loses no answer and keeps their order: the answers of the
/// nested questions, taken question after question, are the rows' answers.
pub proof fn lemma_nest_keeps_answers(rows: Seq<FlatQuiz>)
    ensures
        all_answers(nest_questions(rows)) == rows.map_values(|r: FlatQuiz| r.answer_view()),
    decreases rows.len(),
{
    if rows.len() > 0 {
        let earlier_rows = rows.drop_last();
        lemma_nest_keeps_answers(earlier_rows);
        let earlier = nest_questions(earlier_rows);
        let row = rows.last();
        assert(rows.map_values(|r: FlatQuiz| r.answer_view()) =~= earlier_rows.map_values(
            |r: FlatQuiz| r.answer_view(),
        ).push(row.answer_view()));
        if opens_question(rows, rows.len() - 1) {
            let qs = earlier.push(row.question_view());
            assert(qs.drop_last() =~= earlier);
        } else {
            lemma_nest_nonempty(earlier_rows);
            let q = earlier.last();
            let nq = QuestionView {
                text: q.text,
                image_url: q.image_url,
                answers: q.answers.push(row.answer_view()),
            };
            let qs = earlier.update(earlier.len() - 1, nq);
            assert(qs.drop_last() =~= earlier.drop_last());
            assert(all_answers(earlier) == all_answers(earlier.drop_last()) + q.answers);
            assert(all_answers(qs) =~= all_answers(earlier).push(row.answer_view()));
        }
    }
}

/// Every nested question holds at least one answer, and there is one
/// question for the first row and one more for every pair of adjacent rows
/// whose question ids differ: rows with different question ids never share
/// a question, and adjacent rows with the same id always do.
pub proof fn lemma_nest_shape(rows: Seq<FlatQuiz>)
    requires
        rows.len() > 0,
    ensures
        nest_questions(rows).len() == id_changes(rows) + 1,
        forall|i: int|
            0 <= i < nest_questions(rows).len() ==> #[trigger] nest_questions(rows)[i].answers.len()
                >= 1,
    decreases rows.len(),
{
    let earlier_rows = rows.drop_last();
    let earlier = nest_questions(earlier_rows);
    let row = rows.last();
    if rows.len() == 1 {
        assert(earlier_rows.len() == 0);
        assert(earlier == Seq::<QuestionView>::empty());
        assert(nest_questions(rows) == earlier.push(row.question_view()));
    } else {
        lemma_nest_shape(earlier_rows);
        if opens_question(rows, rows.len() - 1) {
            assert(nest_questions(rows) == earlier.push(row.question_view()));
            assert forall|i: int| 0 <= i < nest_questions(rows).len() implies #[trigger] nest_questions(
                rows,
            )[i].answers.len() >= 1 by {
                if i < earlier.len() {
                    assert(nest_questions(rows)[i] == earlier[i]);
                }
            }
        } else {
            assert forall|i: int| 0 <= i < nest_questions(rows).len() implies #[trigger] nest_questions(
                rows,
            )[i].answers.len() >= 1 by {
                if i < earlier.len() - 1 {
                    assert(nest_questions(rows)[i] == earlier[i]);
                }
            }
        }
    }
}

/// Each row lands in the question numbered by the changes of question id
/// up to it: row `i`'s answer is among the answers of question
/// `id_changes(rows.take(i + 1))`, and a row whose question id differs from
/// the row before it (or the first row) gives that question its text and
/// image.
pub proof fn lemma_row_lands_in_its_question(rows: Seq<FlatQuiz>, i: int)
    requires
        0 <= i < rows.len(),
    ensures
        ({
            let k = id_changes(rows.take(i + 1)) as int;
            let qs = nest_questions(rows);
            &&& 0 <= k < qs.len()
            &&& qs[k].answers.contains(rows[i].answer_view())
            &&& (i == 0 || rows[i - 1].question_id != rows[i].question_id) ==> {
                &&& qs[k].text == rows[i].question_text@
                &&& qs[k].image_url == opt_text(rows[i].image_url)
            }
        }),
    decreases rows.len(),
{
    let n = rows.len();
    let earlier_rows = rows.drop_last();
    let qs = nest_questions(rows);
    let k = id_changes(rows.take(i + 1)) as int;
    lemma_nest_shape(rows);
    if i == n - 1 {
        assert(rows.take(i + 1) =~= rows);
        let row = rows.last();
        if n == 1 {
            assert(nest_questions(earlier_rows) == Seq::<QuestionView>::empty());
            assert(qs[0].answers == seq![row.answer_view()]);
            assert(qs[0].answers[0] == row.answer_view());
        } else {
            lemma_nest_shape(earlier_rows);
            let earlier = nest_questions(earlier_rows);
            if opens_question(rows, n - 1) {
                assert(qs == earlier.push(row.question_view()));
                assert(qs[k].answers[0] == row.answer_view());
            } else {
                let last = qs[k].answers.len() - 1;
                assert(qs[k].answers == earlier.last().answers.push(row.answer_view()));
                assert(qs[k].answers[last] == row.answer_view());
            }
        }
    } else {
        lemma_row_lands_in_its_question(earlier_rows, i);
        assert(earlier_rows.take(i + 1) =~= rows.take(i + 1));
        assert(earlier_rows[i] == rows[i]);
        assert(i > 0 ==> earlier_rows[i - 1] == rows[i - 1]);
        lemma_nest_shape(earlier_rows);
        let earlier = nest_questions(earlier_rows);
        let row = rows.last();
        if opens_question(rows, n - 1) {
            assert(qs == earlier.push(row.question_view()));
            assert(qs[k] == earlier[k]);
        } else {
            if k < earlier.len() - 1 {
                assert(qs[k] == earlier[k]);
            } else {
                let old_ans = earlier[k].answers;
                assert(qs[k].answers == old_ans.push(row.answer_view()));
                assert(qs[k].text == earlier[k].text);
                assert(qs[k].image_url == earlier[k].image_url);
                let w = choose|w: int| 0 <= w < old_ans.len() && old_ans[w] == rows[i].answer_view();
                assert(qs[k].answers[w] == rows[i].answer_view());
            }
        }
    }
}

/// Builds the question that a row opens, holding that row's answer.
fn question_of_row(row: &FlatQuiz) -> (q: NewQuestion)
    ensures
        q@ == row.question_view(),
{
    let mut answers: Vec<NewAnswer> = Vec::new();
    answers.push(NewAnswer { answer_text: row.answer_text.clone(), correct: row.correct });
    let q = NewQuestion {
        question_text: row.question_text.clone(),
        image_url: copy_opt_text(&row.image_url),
        answers,
    };
    assert(q@.answers =~= seq![row.answer_view()]);
    q
}

/// Nests the rows of a quiz into the quiz: its id, name and description
/// are those of the first row, and its questions are the runs of rows
/// that share a question id (see `nest_questions`).
///
/// The first row must exist, and must not carry the question id -1,
/// which stands for "no question yet" while the rows are read.
pub fn flat_to_nested_quiz(flat: Vec<FlatQuiz>) -> (quiz: OutgoingQuiz)
    requires
        flat.len() > 0,
        flat[0].question_id != -1,
    ensures
        quiz.quiz_id == flat[0].quiz_id,
        quiz.name@ == flat[0].name@,
        quiz.description@ == flat[0].description@,
        quiz@.questions == nest_questions(flat@),
        quiz.questions.len() == id_changes(flat@) + 1,
{
    proof {
        lemma_nest_shape(flat@);
    }
    let mut questions: Vec<NewQuestion> = Vec::new();
    let mut current = question_of_row(&flat[0]);
    let mut i: usize = 1;
    assert(flat@.take(1).drop_last() =~= Seq::<FlatQuiz>::empty());
    assert(flat@.take(1).last() == flat@[0]);
    assert(nest_questions(flat@.take(1).drop_last()) == Seq::<QuestionView>::empty());
    assert(nest_questions(flat@.take(1)) == Seq::<QuestionView>::empty().push(flat@[0].question_view()));
    assert(questions@.map_values(|q: NewQuestion| q@) =~= Seq::<QuestionView>::empty());
    assert(questions@.map_values(|q: NewQuestion| q@).push(current@) =~= nest_questions(
        flat@.take(1),
    ));
    while i < flat.len()
        invariant
            1 <= i <= flat.len(),
            questions@.map_values(|q: NewQuestion| q@).push(current@) == nest_questions(
                flat@.take(i as int),
            ),
        decreases flat.len() - i,
    {
        let ghost before = questions@.map_values(|q: NewQuestion| q@);
        let ghost old_current = current@;
        let ghost rows = flat@.take(i + 1);
        assert(rows.drop_last() =~= flat@.take(i as int));
        assert(rows.last() == flat@[i as int]);
        assert(rows[i - 1] == flat@[i - 1]);
        if flat[i - 1].question_id != flat[i].question_id {
            let next = question_of_row(&flat[i]);
            questions.push(current);
            current = next;
            assert(questions@.map_values(|q: NewQuestion| q@) =~= before.push(old_current));
        } else {
            let a = NewAnswer { answer_text: flat[i].answer_text.clone(), correct: flat[i].correct };
            current.answers.push(a);
            assert(current@.answers =~= old_current.answers.push(flat@[i as int].answer_view()));
            assert(before.push(old_current).update(before.len() as int, current@) =~= before.push(
                current@,
            ));
        }
        i = i + 1;
    }
    assert(flat@.take(flat.len() as int) =~= flat@);
    questions.push(current);
    let quiz = OutgoingQuiz {
        quiz_id: flat[0].quiz_id,
        name: flat[0].name.clone(),
        description: flat[0].description.clone(),
        questions,
    };
    assert(quiz@.questions =~= nest_questions(flat@));
    quiz
}

} // verus!
