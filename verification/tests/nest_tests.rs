use quiz::nest::flat_to_nested_quiz;
use quiz::records::FlatQuiz;

fn row(question_id: i32, question_text: &str, answer_id: i32, answer_text: &str, correct: Option<bool>) -> FlatQuiz {
    FlatQuiz {
        quiz_id: 7,
        name: "capitals".to_string(),
        description: "name the capital".to_string(),
        question_id,
        question_text: question_text.to_string(),
        image_url: if question_id == 2 { Some("map.png".to_string()) } else { None },
        answer_id,
        answer_text: answer_text.to_string(),
        correct,
    }
}

#[test]
fn nesting_takes_the_quiz_from_the_first_row() {
    let quiz = flat_to_nested_quiz(vec![row(1, "France?", 10, "Paris", Some(true))]);
    assert_eq!(quiz.quiz_id, 7);
    assert_eq!(quiz.name, "capitals");
    assert_eq!(quiz.description, "name the capital");
    assert_eq!(quiz.questions.len(), 1);
    assert_eq!(quiz.questions[0].question_text, "France?");
    assert_eq!(quiz.questions[0].image_url, None);
    assert_eq!(quiz.questions[0].answers.len(), 1);
    assert_eq!(quiz.questions[0].answers[0].answer_text, "Paris");
    assert_eq!(quiz.questions[0].answers[0].correct, Some(true));
}

#[test]
fn nesting_groups_consecutive_rows_of_a_question() {
    let rows = vec![
        row(1, "France?", 10, "Paris", Some(true)),
        row(1, "France?", 11, "Lyon", None),
        row(2, "Spain?", 12, "Madrid", Some(true)),
        row(2, "Spain?", 13, "Porto", Some(false)),
        row(2, "Spain?", 14, "Seville", None),
        row(3, "Italy?", 15, "Rome", Some(true)),
    ];
    let quiz = flat_to_nested_quiz(rows);
    assert_eq!(quiz.questions.len(), 3);
    let texts: Vec<&str> = quiz.questions.iter().map(|q| q.question_text.as_str()).collect();
    assert_eq!(texts, vec!["France?", "Spain?", "Italy?"]);
    assert_eq!(quiz.questions[1].image_url, Some("map.png".to_string()));
    let spain: Vec<(&str, Option<bool>)> =
        quiz.questions[1].answers.iter().map(|a| (a.answer_text.as_str(), a.correct)).collect();
    assert_eq!(spain, vec![("Madrid", Some(true)), ("Porto", Some(false)), ("Seville", None)]);
    assert_eq!(quiz.questions[2].answers.len(), 1);
}

#[test]
fn nesting_keeps_every_answer_in_row_order() {
    let rows = vec![
        row(4, "a", 1, "x1", None),
        row(4, "a", 2, "x2", Some(true)),
        row(5, "b", 3, "y1", None),
        row(6, "c", 4, "z1", None),
        row(6, "c", 5, "z2", Some(false)),
    ];
    let expected: Vec<String> = rows.iter().map(|r| r.answer_text.clone()).collect();
    let quiz = flat_to_nested_quiz(rows);
    let flattened: Vec<String> =
        quiz.questions.iter().flat_map(|q| q.answers.iter().map(|a| a.answer_text.clone())).collect();
    assert_eq!(flattened, expected);
    // one question for the first row and one for each change of question id
    assert_eq!(quiz.questions.len(), 3);
    assert!(quiz.questions.iter().all(|q| !q.answers.is_empty()));
}

#[test]
fn nesting_splits_a_question_whose_rows_are_not_adjacent() {
    let rows = vec![
        row(1, "France?", 10, "Paris", Some(true)),
        row(3, "Italy?", 15, "Rome", Some(true)),
        row(1, "France?", 11, "Lyon", None),
    ];
    let quiz = flat_to_nested_quiz(rows);
    assert_eq!(quiz.questions.len(), 3);
    assert_eq!(quiz.questions[0].question_text, "France?");
    assert_eq!(quiz.questions[2].question_text, "France?");
    assert_eq!(quiz.questions[2].answers[0].answer_text, "Lyon");
}
