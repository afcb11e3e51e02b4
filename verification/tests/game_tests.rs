use quiz::actions::Action;
use quiz::game::QuizGame;
use quiz::messages::{
    correct_answers, list_contains, question_message, quiz_header, IncomingWebsocketAnswer,
    WebsocketMessage,
};
use quiz::records::{NewAnswer, NewQuestion, OutgoingQuiz};

fn answer(text: &str, correct: Option<bool>) -> NewAnswer {
    NewAnswer { answer_text: text.to_string(), correct }
}

fn sample_quiz() -> OutgoingQuiz {
    OutgoingQuiz {
        quiz_id: 1,
        name: "drinks".to_string(),
        description: "moonshine".to_string(),
        questions: vec![
            NewQuestion {
                question_text: "Moonshine was not a slang term for which beverage?".to_string(),
                image_url: None,
                answers: vec![
                    answer("Alcohol", None),
                    answer("Juice", Some(true)),
                    answer("Milk", Some(true)),
                    answer("Water", Some(true)),
                ],
            },
            NewQuestion {
                question_text: "Two plus two?".to_string(),
                image_url: Some("sum.png".to_string()),
                answers: vec![answer("4", Some(true)), answer("5", Some(false))],
            },
        ],
    }
}

fn incoming(index: usize, answer: usize) -> IncomingWebsocketAnswer {
    IncomingWebsocketAnswer { index, answer }
}

#[test]
fn header_counts_the_questions() {
    let h = quiz_header(&sample_quiz());
    assert_eq!(h.message_type, WebsocketMessage::Quiz);
    assert_eq!(h.name, "drinks");
    assert_eq!(h.description, "moonshine");
    assert_eq!(h.num_questions, 2);
}

#[test]
fn question_message_numbers_from_one() {
    let quiz = sample_quiz();
    let m = question_message(1, &quiz.questions[1]);
    assert_eq!(m.message_type, WebsocketMessage::Question);
    assert_eq!(m.index, 2);
    assert_eq!(m.text, "Two plus two?");
    assert_eq!(m.image_url, Some("sum.png".to_string()));
    let alts: Vec<(usize, &str)> = m.alternatives.iter().map(|a| (a.index, a.text.as_str())).collect();
    assert_eq!(alts, vec![(1, "4"), (2, "5")]);
}

#[test]
fn correct_answers_lists_marked_alternatives_ascending() {
    let quiz = sample_quiz();
    assert_eq!(correct_answers(&quiz.questions[0]), vec![2, 3, 4]);
    assert_eq!(correct_answers(&quiz.questions[1]), vec![1]);
    let none = NewQuestion { question_text: "q".to_string(), image_url: None, answers: vec![] };
    assert_eq!(correct_answers(&none), Vec::<usize>::new());
    assert!(list_contains(&vec![2, 3, 4], 3));
    assert!(!list_contains(&vec![2, 3, 4], 1));
}

#[test]
fn game_starts_with_the_first_question() {
    let (game, actions) = QuizGame::start(sample_quiz(), None);
    assert_eq!(game.score(), 0);
    assert!(!game.is_finished());
    assert_eq!(actions.len(), 1);
    match &actions[0] {
        Action::SendQuestion(m) => {
            assert_eq!(m.index, 1);
            assert_eq!(m.alternatives.len(), 4);
        },
        _ => panic!("expected a question"),
    }
}

#[test]
fn game_without_questions_ends_at_once() {
    let quiz = OutgoingQuiz { quiz_id: 3, name: "n".to_string(), description: "d".to_string(), questions: vec![] };
    let (game, actions) = QuizGame::start(quiz, Some(9));
    assert!(game.is_finished());
    assert_eq!(actions.len(), 1);
    assert!(matches!(&actions[0], Action::SendEnd(e) if e.score == 0 && e.message_type == WebsocketMessage::End));
}

#[test]
fn right_answer_scores_and_stores_the_score() {
    let (mut game, _) = QuizGame::start(sample_quiz(), Some(42));
    assert!(game.would_earn_point(incoming(1, 3)));
    let actions = game.on_answer(incoming(1, 3));
    assert_eq!(game.score(), 1);
    assert_eq!(actions.len(), 4);
    assert!(matches!(&actions[0], Action::SaveScore { player_id: 42, score: 1 }));
    match &actions[1] {
        Action::SendResult(r) => {
            assert_eq!(r.message_type, WebsocketMessage::Result);
            assert_eq!(r.index, 1);
            assert!(r.correct);
            assert_eq!(r.score, 1);
            assert_eq!(r.correct_answers, vec![2, 3, 4]);
        },
        _ => panic!("expected a verdict"),
    }
    assert!(matches!(&actions[2], Action::Pause { seconds: 3 }));
    assert!(matches!(&actions[3], Action::SendQuestion(m) if m.index == 2));
}

#[test]
fn right_answer_without_player_stores_nothing() {
    let (mut game, _) = QuizGame::start(sample_quiz(), None);
    let actions = game.on_answer(incoming(1, 2));
    assert_eq!(game.score(), 1);
    assert_eq!(actions.len(), 3);
    assert!(matches!(&actions[0], Action::SendResult(r) if r.correct && r.score == 1));
}

#[test]
fn wrong_answer_keeps_the_score() {
    let (mut game, _) = QuizGame::start(sample_quiz(), Some(42));
    assert!(!game.would_earn_point(incoming(1, 1)));
    let actions = game.on_answer(incoming(1, 1));
    assert_eq!(game.score(), 0);
    assert_eq!(actions.len(), 3);
    assert!(matches!(&actions[0], Action::SendResult(r) if !r.correct && r.score == 0 && r.index == 1));
    assert!(matches!(&actions[1], Action::Pause { seconds: 3 }));
    assert!(matches!(&actions[2], Action::SendQuestion(m) if m.index == 2));
}

#[test]
fn unacceptable_answers_get_a_notice_and_move_on() {
    for bad in [incoming(1, 0), incoming(1, 5), incoming(2, 2), incoming(0, 2)] {
        let (mut game, _) = QuizGame::start(sample_quiz(), Some(42));
        let actions = game.on_answer(bad);
        assert_eq!(game.score(), 0);
        assert_eq!(actions.len(), 2);
        assert!(matches!(&actions[0], Action::SendNotice(t) if t == "This is supposed to never happen"));
        assert!(matches!(&actions[1], Action::SendQuestion(m) if m.index == 2));
    }
}

#[test]
fn last_answer_ends_with_the_final_score() {
    let (mut game, _) = QuizGame::start(sample_quiz(), None);
    game.on_answer(incoming(1, 4));
    let actions = game.on_answer(incoming(2, 1));
    assert!(game.is_finished());
    assert_eq!(game.score(), 2);
    assert_eq!(actions.len(), 3);
    assert!(matches!(&actions[2], Action::SendEnd(e) if e.score == 2));
}

#[test]
fn final_score_counts_the_right_answers() {
    // right, then wrong: one point
    let (mut game, _) = QuizGame::start(sample_quiz(), None);
    game.on_answer(incoming(1, 2));
    let actions = game.on_answer(incoming(2, 2));
    assert_eq!(game.score(), 1);
    assert!(matches!(actions.last(), Some(Action::SendEnd(e)) if e.score == 1));
}
