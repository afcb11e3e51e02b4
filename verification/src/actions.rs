//! The outside work that the state machines ask for: messages to send on
//! the websocket, reads and writes of the database, and pauses.

use vstd::prelude::*;
use crate::messages::{
    PlayerResultView, QuestionMessageView, QuizHeaderView, ResultMessageView, WebsocketEndResult,
    WebsocketPlayerResult, WebsocketQuestion, WebsocketQuiz, WebsocketResult,
};

verus! {

/// One piece of outside work, to be done in the order given.
pub enum Action {
    /// Read the rows of the quiz with this id.
    LoadQuiz { quiz_id: i32 },
    /// Read the rows of the quiz that this session plays.
    LoadSessionQuiz { session_id: i32 },
    /// Send the opening message.
    SendQuiz(WebsocketQuiz),
    /// Look up the player of this session with this name.
    FindPlayer { session_id: i32, name: String },
    /// Store a new player of this session with this name and score 0.
    CreatePlayer { session_id: i32, name: String },
    /// Send a question.
    SendQuestion(WebsocketQuestion),
    /// Send a plain text message.
    SendNotice(String),
    /// Store this score for this player.
    SaveScore { player_id: i32, score: i32 },
    /// Send the verdict on an answer.
    SendResult(WebsocketResult),
    /// Wait this many seconds.
    Pause { seconds: u64 },
    /// Send the closing message of a played quiz.
    SendEnd(WebsocketEndResult),
    /// Store that this player has finished the quiz.
    MarkFinished { player_id: i32 },
    /// Read all players of this session.
    LoadPlayers { session_id: i32 },
    /// Send the standing of the players.
    SendPlayerResults(WebsocketPlayerResult),
    /// Close the websocket.
    Close,
}

/// What an action asks for.
pub enum ActionView {
    LoadQuiz { quiz_id: i32 },
    LoadSessionQuiz { session_id: i32 },
    SendQuiz(QuizHeaderView),
    FindPlayer { session_id: i32, name: Seq<char> },
    CreatePlayer { session_id: i32, name: Seq<char> },
    SendQuestion(QuestionMessageView),
    SendNotice(Seq<char>),
    SaveScore { player_id: i32, score: i32 },
    SendResult(ResultMessageView),
    Pause { seconds: u64 },
    SendEnd(WebsocketEndResult),
    MarkFinished { player_id: i32 },
    LoadPlayers { session_id: i32 },
    SendPlayerResults(PlayerResultView),
    Close,
}

impl View for Action {
    type V = ActionView;

    open spec fn view(&self) -> ActionView {
        match self {
            Action::LoadQuiz { quiz_id } => ActionView::LoadQuiz { quiz_id: *quiz_id },
            Action::LoadSessionQuiz { session_id } => ActionView::LoadSessionQuiz {
                session_id: *session_id,
            },
            Action::SendQuiz(m) => ActionView::SendQuiz(m@),
            Action::FindPlayer { session_id, name } => ActionView::FindPlayer {
                session_id: *session_id,
                name: name@,
            },
            Action::CreatePlayer { session_id, name } => ActionView::CreatePlayer {
                session_id: *session_id,
                name: name@,
            },
            Action::SendQuestion(m) => ActionView::SendQuestion(m@),
            Action::SendNotice(t) => ActionView::SendNotice(t@),
            Action::SaveScore { player_id, score } => ActionView::SaveScore {
                player_id: *player_id,
                score: *score,
            },
            Action::SendResult(m) => ActionView::SendResult(m@),
            Action::Pause { seconds } => ActionView::Pause { seconds: *seconds },
            Action::SendEnd(m) => ActionView::SendEnd(*m),
            Action::MarkFinished { player_id } => ActionView::MarkFinished { player_id: *player_id },
            Action::LoadPlayers { session_id } => ActionView::LoadPlayers { session_id: *session_id },
            Action::SendPlayerResults(m) => ActionView::SendPlayerResults(m@),
            Action::Close => ActionView::Close,
        }
    }
}

/// What a list of actions asks for, in order.
pub open spec fn action_views(actions: Seq<Action>) -> Seq<ActionView> {
    actions.map_values(|a: Action| a@)
}

/// Appends an action to a list.
pub fn push_action(actions: &mut Vec<Action>, a: Action)
    ensures
        action_views(final(actions)@) == action_views(old(actions)@).push(a@),
{
    actions.push(a);
    assert(action_views(actions@) =~= action_views(old(actions)@).push(a@));
}

/// Appends a list of actions to another, keeping their order.
pub fn append_actions(actions: &mut Vec<Action>, more: Vec<Action>)
    ensures
        action_views(final(actions)@) == action_views(old(actions)@) + action_views(more@),
{
    let ghost before = actions@;
    let mut more = more;
    let ghost all = more@;
    actions.append(&mut more);
    assert(action_views(actions@) =~= action_views(before) + action_views(all));
}

} // verus!
