use quiz::actions::Action;
use quiz::flow::{all_finished, QuizFlow, Stage};
use quiz::messages::IncomingWebsocketAnswer;
use quiz::records::{FlatQuiz, Player};

fn row(question_id: i32, answer_text: &str, correct: Option<bool>) -> FlatQuiz {
    FlatQuiz {
        quiz_id: 3,
        name: "colours".to_string(),
        description: "of things".to_string(),
        question_id,
        question_text: format!("question {}", question_id),
        image_url: None,
        answer_id: 0,
        answer_text: answer_text.to_string(),
        correct,
    }
}

fn rows() -> Vec<FlatQuiz> {
    vec![
        row(1, "red", Some(true)),
        row(1, "blue", None),
        row(2, "green", Some(false)),
        row(2, "white", Some(true)),
    ]
}

fn player(player_id: i32, name: &str, finished: bool) -> Player {
    Player { session_id: 8, player_id, score: 0, finished, name: name.to_string(), host: false }
}

#[test]
fn flow_refuses_a_path_that_is_no_identifier() {
    assert!(QuizFlow::for_quiz("abc").is_none());
    assert!(QuizFlow::for_quiz("").is_none());
    assert!(QuizFlow::for_session("1.0", "ann".to_string()).is_none());
}

#[test]
fn playing_alone_reads_announces_plays_and_closes() {
    let (mut flow, actions) = QuizFlow::for_quiz("3").unwrap();
    assert_eq!(flow.stage(), Stage::LoadingQuiz);
    assert_eq!(actions.len(), 1);
    assert!(matches!(&actions[0], Action::LoadQuiz { quiz_id: 3 }));

    let actions = flow.on_quiz_rows(rows());
    assert_eq!(flow.stage(), Stage::Playing);
    assert_eq!(actions.len(), 2);
    assert!(matches!(&actions[0], Action::SendQuiz(h) if h.name == "colours" && h.num_questions == 2));
    assert!(matches!(&actions[1], Action::SendQuestion(q) if q.index == 1 && q.alternatives.len() == 2));

    let a = IncomingWebsocketAnswer { index: 1, answer: 1 };
    assert!(!flow.answer_would_overflow(a));
    let actions = flow.on_answer(a);
    assert_eq!(flow.stage(), Stage::Playing);
    // no player alone: no stored score
    assert_eq!(actions.len(), 3);
    assert!(matches!(&actions[0], Action::SendResult(r) if r.correct && r.score == 1));

    let actions = flow.on_answer(IncomingWebsocketAnswer { index: 2, answer: 1 });
    assert_eq!(flow.stage(), Stage::Closed);
    assert_eq!(actions.len(), 4);
    assert!(matches!(&actions[0], Action::SendResult(r) if !r.correct && r.score == 1 && r.correct_answers == vec![2]));
    assert!(matches!(&actions[2], Action::SendEnd(e) if e.score == 1));
    assert!(matches!(&actions[3], Action::Close));
}

#[test]
fn new_player_in_a_session_plays_then_polls() {
    let (mut flow, actions) = QuizFlow::for_session("8", "ann".to_string()).unwrap();
    assert!(matches!(&actions[0], Action::LoadSessionQuiz { session_id: 8 }));

    let actions = flow.on_quiz_rows(rows());
    assert_eq!(flow.stage(), Stage::FindingPlayer);
    assert_eq!(actions.len(), 2);
    assert!(matches!(&actions[0], Action::SendQuiz(h) if h.num_questions == 2));
    assert!(matches!(&actions[1], Action::FindPlayer { session_id: 8, name } if name == "ann"));

    let actions = flow.on_player_lookup(None);
    assert_eq!(flow.stage(), Stage::CreatingPlayer);
    assert!(matches!(&actions[0], Action::CreatePlayer { session_id: 8, name } if name == "ann"));

    let actions = flow.on_player_created(player(77, "ann", false));
    assert_eq!(flow.stage(), Stage::Playing);
    assert_eq!(actions.len(), 1);
    assert!(matches!(&actions[0], Action::SendQuestion(q) if q.index == 1));

    let actions = flow.on_answer(IncomingWebsocketAnswer { index: 1, answer: 1 });
    assert!(matches!(&actions[0], Action::SaveScore { player_id: 77, score: 1 }));

    let actions = flow.on_answer(IncomingWebsocketAnswer { index: 2, answer: 2 });
    assert_eq!(flow.stage(), Stage::MarkingFinished);
    assert!(matches!(&actions[0], Action::SaveScore { player_id: 77, score: 2 }));
    assert!(matches!(actions.last(), Some(Action::MarkFinished { player_id: 77 })));

    let actions = flow.on_finish_recorded();
    assert_eq!(flow.stage(), Stage::Polling);
    assert!(matches!(&actions[0], Action::LoadPlayers { session_id: 8 }));

    let actions = flow.on_players(vec![player(77, "ann", true), player(78, "bob", false)]);
    assert_eq!(flow.stage(), Stage::Polling);
    assert_eq!(actions.len(), 3);
    assert!(matches!(&actions[0], Action::SendPlayerResults(r) if !r.game_ended && r.players.len() == 2));
    assert!(matches!(&actions[1], Action::Pause { seconds: 1 }));
    assert!(matches!(&actions[2], Action::LoadPlayers { session_id: 8 }));

    let actions = flow.on_players(vec![player(77, "ann", true), player(78, "bob", true)]);
    assert_eq!(flow.stage(), Stage::Closed);
    assert_eq!(actions.len(), 2);
    assert!(matches!(&actions[0], Action::SendPlayerResults(r) if r.game_ended));
    assert!(matches!(&actions[1], Action::Close));
}

#[test]
fn known_player_does_not_play_again() {
    let (mut flow, _) = QuizFlow::for_session("+8", "ann".to_string()).unwrap();
    flow.on_quiz_rows(rows());
    let actions = flow.on_player_lookup(Some(player(77, "ann", true)));
    assert_eq!(flow.stage(), Stage::Polling);
    assert_eq!(actions.len(), 1);
    assert!(matches!(&actions[0], Action::LoadPlayers { session_id: 8 }));
}

#[test]
fn no_players_counts_as_everyone_finished() {
    assert!(all_finished(&vec![]));
    assert!(all_finished(&vec![player(1, "a", true)]));
    assert!(!all_finished(&vec![player(1, "a", true), player(2, "b", false)]));
}
