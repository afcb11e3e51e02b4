//! The conversation on one websocket, from the identifier in the request
//! path to the closing of the socket.
//!
//! Two conversations exist. Playing a quiz alone (`QuizFlow::for_quiz`):
//! the quiz is read, announced and played, and the socket is closed.
//! Joining a session (`QuizFlow::for_session`): the session's quiz is read
//! and announced; a player who is new to the session under the given name
//! is stored, plays the quiz with the score stored as it grows, and is then
//! marked finished; a player known under that name does not play again.
//! Then the standing of the session's players is sent once a second until
//! every player has finished, and the socket is closed.
//!
//! The flow only decides. Its caller performs the actions it returns and
//! reports back what the database answered and what the player sent.

use vstd::prelude::*;
use crate::actions::{action_views, append_actions, push_action, Action, ActionView};
use crate::game::{after_answer, answer_actions, earns_point, game_over, next_actions, start_view, QuizGame, GameView};
use crate::ident::{parse_id, parsed_id};
use crate::messages::{
    quiz_header, quiz_header_view, IncomingWebsocketAnswer, PlayerResultView, WebsocketMessage,
    WebsocketPlayerResult,
};
use crate::nest::{flat_to_nested_quiz, nest_questions};
use crate::records::{FlatQuiz, OutgoingQuiz, Player, QuizView};

verus! {

/// Where a conversation stands: what it waits for.
#[derive(Clone, Copy, Debug, PartialEq, Eq, Structural)]
pub enum Stage {
    /// Waits for the rows of the quiz.
    LoadingQuiz,
    /// Waits for the lookup of the player by name.
    FindingPlayer,
    /// Waits for the stored new player.
    CreatingPlayer,
    /// Waits for the player's answer to the current question.
    Playing,
    /// Waits until the player is stored as finished.
    MarkingFinished,
    /// Waits for the list of the session's players.
    Polling,
    /// Done: the socket is closed.
    Closed,
}

/// The state of a conversation.
pub struct QuizFlow {
    in_session: bool,
    id: i32,
    name: String,
    stage: Stage,
    quiz: Option<OutgoingQuiz>,
    game: Option<QuizGame>,
    player_id: Option<i32>,
}

/// What the state of a conversation is: whether it joins a session; the
/// quiz id (alone) or session id (in a session); the player's name (in a
/// session); where it stands; the quiz read and not yet played; the game
/// being played; and the id of the player who plays.
pub struct FlowView {
    pub in_session: bool,
    pub id: i32,
    pub name: Seq<char>,
    pub stage: Stage,
    pub quiz: Option<QuizView>,
    pub game: Option<GameView>,
    pub player_id: Option<i32>,
}

/// The quiz of an optional quiz.
pub open spec fn opt_quiz_view(q: Option<OutgoingQuiz>) -> Option<QuizView> {
    match q {
        Some(quiz) => Some(quiz@),
        None => None,
    }
}

/// The state of an optional game.
pub open spec fn opt_game_view(g: Option<QuizGame>) -> Option<GameView> {
    match g {
        Some(game) => Some(game@),
        None => None,
    }
}

impl View for QuizFlow {
    type V = FlowView;

    closed spec fn view(&self) -> FlowView {
        FlowView {
            in_session: self.in_session,
            id: self.id,
            name: self.name@,
            stage: self.stage,
            quiz: opt_quiz_view(self.quiz),
            game: opt_game_view(self.game),
            player_id: self.player_id,
        }
    }
}

/// A conversation's state is sound: a game is played exactly while the
/// stage is `Playing`, and then it has a question left and stores scores
/// for the session's player (in a session) or for nobody (alone); a read
/// quiz waits exactly while the player is looked up or stored; and the
/// stages of a session are reached only in a session.
pub open spec fn flow_wf(f: FlowView) -> bool {
    &&& (f.stage == Stage::Playing) == (f.game is Some)
    &&& f.stage == Stage::Playing ==> {
        &&& crate::game::game_wf(f.game->0)
        &&& !game_over(f.game->0)
        &&& f.game->0.player_id == (if f.in_session { f.player_id } else { None })
    }
    &&& (f.stage == Stage::FindingPlayer || f.stage == Stage::CreatingPlayer) == (f.quiz is Some)
    &&& f.quiz is Some ==> f.quiz->0.questions.len() > 0
    &&& (f.stage == Stage::FindingPlayer || f.stage == Stage::CreatingPlayer
        || f.stage == Stage::MarkingFinished || f.stage == Stage::Polling) ==> f.in_session
    &&& (f.stage == Stage::MarkingFinished || (f.in_session && f.stage == Stage::Playing))
        ==> f.player_id is Some
}

/// What follows once the game is over: in a session the player is marked
/// finished; alone the socket is closed.
pub open spec fn game_over_actions(f: FlowView) -> Seq<ActionView> {
    if f.in_session {
        seq![ActionView::MarkFinished { player_id: f.player_id->0 }]
    } else {
        seq![ActionView::Close]
    }
}

/// The stage once the game is over.
pub open spec fn game_over_stage(f: FlowView) -> Stage {
    if f.in_session {
        Stage::MarkingFinished
    } else {
        Stage::Closed
    }
}

/// Whether every player has finished.
pub open spec fn everyone_finished(players: Seq<Player>) -> bool {
    forall|i: int| 0 <= i < players.len() ==> #[trigger] players[i].finished
}

/// The game has ended exactly when no player in the list is unfinished:
/// one unfinished player anywhere in the list (the first one included)
/// keeps it going, and a list of finished players (or none) ends it.
pub proof fn lemma_everyone_finished_iff_none_unfinished(players: Seq<Player>)
    ensures
        everyone_finished(players) <==> !(exists|i: int| 0 <= i < players.len() && !(#[trigger] players[i].finished)),
        forall|i: int| 0 <= i < players.len() && !(#[trigger] players[i].finished) ==> !everyone_finished(players),
        players.len() == 0 ==> everyone_finished(players),
{
    assert forall|i: int| 0 <= i < players.len() && !(#[trigger] players[i].finished) implies !everyone_finished(players) by {}
}

/// Whether every player in the list has finished; so for no players.
pub fn all_finished(players: &Vec<Player>) -> (r: bool)
    ensures
        r == everyone_finished(players@),
        r <==> forall|i: int| 0 <= i < players.len() ==> (#[trigger] players@[i]).finished,
{
    let mut i: usize = 0;
    while i < players.len()
        invariant
            i <= players.len(),
            forall|j: int| 0 <= j < i ==> #[trigger] players@[j].finished,
        decreases players.len() - i,
    {
        if !players[i].finished {
            return false;
        }
        i = i + 1;
    }
    true
}

impl QuizFlow {
    /// The state is sound (see `flow_wf`).
    pub open spec fn wf(&self) -> bool {
        flow_wf(self@)
    }

    /// Starts playing alone the quiz whose id is written in `quiz_param`:
    /// none where `quiz_param` is no identifier (see `parse_id`); otherwise
    /// the flow waits for the rows of that quiz and asks for them.
    pub fn for_quiz(quiz_param: &str) -> (res: Option<(QuizFlow, Vec<Action>)>)
        ensures
            res is None <==> parsed_id(quiz_param@) is None,
            res matches Some((f, actions)) ==> {
                &&& f.wf()
                &&& f@ == (FlowView {
                    in_session: false,
                    id: parsed_id(quiz_param@)->0,
                    name: Seq::empty(),
                    stage: Stage::LoadingQuiz,
                    quiz: None,
                    game: None,
                    player_id: None,
                })
                &&& action_views(actions@) == seq![
                    ActionView::LoadQuiz { quiz_id: parsed_id(quiz_param@)->0 },
                ]
            },
    {
        match parse_id(quiz_param) {
            None => None,
            Some(quiz_id) => {
                let flow = QuizFlow {
                    in_session: false,
                    id: quiz_id,
                    name: String::new(),
                    stage: Stage::LoadingQuiz,
                    quiz: None,
                    game: None,
                    player_id: None,
                };
                let mut actions: Vec<Action> = Vec::new();
                push_action(&mut actions, Action::LoadQuiz { quiz_id });
                assert(action_views(actions@) =~= seq![ActionView::LoadQuiz { quiz_id }]);
                Some((flow, actions))
            },
        }
    }

    /// Joins, under `name`, the session whose id is written in
    /// `session_param`: none where `session_param` is no identifier;
    /// otherwise the flow waits for the rows of the session's quiz and asks
    /// for them.
    pub fn for_session(session_param: &str, name: String) -> (res: Option<(QuizFlow, Vec<Action>)>)
        ensures
            res is None <==> parsed_id(session_param@) is None,
            res matches Some((f, actions)) ==> {
                &&& f.wf()
                &&& f@ == (FlowView {
                    in_session: true,
                    id: parsed_id(session_param@)->0,
                    name: name@,
                    stage: Stage::LoadingQuiz,
                    quiz: None,
                    game: None,
                    player_id: None,
                })
                &&& action_views(actions@) == seq![
                    ActionView::LoadSessionQuiz { session_id: parsed_id(session_param@)->0 },
                ]
            },
    {
        match parse_id(session_param) {
            None => None,
            Some(session_id) => {
                let flow = QuizFlow {
                    in_session: true,
                    id: session_id,
                    name,
                    stage: Stage::LoadingQuiz,
                    quiz: None,
                    game: None,
                    player_id: None,
                };
                let mut actions: Vec<Action> = Vec::new();
                push_action(&mut actions, Action::LoadSessionQuiz { session_id });
                assert(action_views(actions@) =~= seq![ActionView::LoadSessionQuiz { session_id }]);
                Some((flow, actions))
            },
        }
    }

    /// Where the conversation stands.
    pub fn stage(&self) -> (r: Stage)
        ensures
            r == self@.stage,
    {
        self.stage
    }

    /// Starts the game of `quiz`, and ends it at once if it has no question.
    fn begin_game(&mut self, quiz: OutgoingQuiz, actions: &mut Vec<Action>)
        requires
            old(self).game is None,
            old(self).in_session ==> old(self).player_id is Some,
            old(self).stage != Stage::Playing,
            old(self).quiz is None,
            !old(self).in_session ==> old(self).stage == Stage::LoadingQuiz,
        ensures
            ({
                let g = start_view(quiz@, if old(self)@.in_session { old(self)@.player_id } else { None });
                let f = old(self)@;
                &&& final(self).wf()
                &&& final(self)@.in_session == f.in_session
                &&& final(self)@.id == f.id
                &&& final(self)@.name == f.name
                &&& final(self)@.player_id == f.player_id
                &&& final(self)@.quiz is None
                &&& if game_over(g) {
                    &&& final(self)@.stage == game_over_stage(f)
                    &&& final(self)@.game is None
                    &&& action_views(final(actions)@) == action_views(old(actions)@) + next_actions(g)
                        + game_over_actions(f)
                } else {
                    &&& final(self)@.stage == Stage::Playing
                    &&& final(self)@.game == Some(g)
                    &&& action_views(final(actions)@) == action_views(old(actions)@) + next_actions(g)
                }
            }),
    {
        let ghost before = action_views(actions@);
        let player = if self.in_session { self.player_id } else { None };
        let (game, opening) = QuizGame::start(quiz, player);
        append_actions(actions, opening);
        assert(action_views(actions@) == before + next_actions(game@));
        if game.is_finished() {
            self.end_game(actions);
        } else {
            self.game = Some(game);
            self.stage = Stage::Playing;
        }
    }

    /// Ends the game: in a session the player is to be marked finished,
    /// alone the socket is to be closed.
    fn end_game(&mut self, actions: &mut Vec<Action>)
        requires
            old(self).in_session ==> old(self).player_id is Some,
            old(self).quiz is None,
        ensures
            final(self)@ == (FlowView { stage: game_over_stage(old(self)@), game: None, ..old(self)@ }),
            final(self).wf(),
            action_views(final(actions)@) == action_views(old(actions)@) + game_over_actions(old(self)@),
    {
        let ghost before = action_views(actions@);
        self.game = None;
        if self.in_session {
            let player_id = self.player_id.unwrap();
            push_action(actions, Action::MarkFinished { player_id });
            self.stage = Stage::MarkingFinished;
        } else {
            push_action(actions, Action::Close);
            self.stage = Stage::Closed;
        }
        assert(action_views(actions@) =~= before + game_over_actions(old(self)@));
    }

    /// Takes the rows of the quiz (one per answer; see `flat_to_nested_quiz`)
    /// and announces the quiz. Alone, the game starts at once, with no
    /// player's score stored. In a session, the player is looked up by name.
    ///
    /// There must be a first row, and it must not carry the question id -1.
    pub fn on_quiz_rows(&mut self, rows: Vec<FlatQuiz>) -> (actions: Vec<Action>)
        requires
            old(self).wf(),
            old(self)@.stage == Stage::LoadingQuiz,
            rows.len() > 0,
            rows[0].question_id != -1,
        ensures
            ({
                let f = old(self)@;
                let quiz = QuizView {
                    quiz_id: rows[0].quiz_id,
                    name: rows[0].name@,
                    description: rows[0].description@,
                    questions: nest_questions(rows@),
                };
                let header = ActionView::SendQuiz(
                    quiz_header_view(rows[0].name@, rows[0].description@, nest_questions(rows@).len() as usize),
                );
                &&& final(self).wf()
                &&& actions@.len() > 0
                &&& actions@[0]@ matches ActionView::SendQuiz(h) && h.message_type == WebsocketMessage::Quiz
                    && h.name == rows[0].name@ && h.description == rows[0].description@
                    && h.num_questions == crate::nest::id_changes(rows@) + 1
                &&& final(self)@.in_session == f.in_session
                &&& final(self)@.id == f.id
                &&& final(self)@.name == f.name
                &&& final(self)@.player_id == f.player_id
                &&& if f.in_session {
                    &&& final(self)@.stage == Stage::FindingPlayer
                    &&& final(self)@.quiz == Some(quiz)
                    &&& final(self)@.game is None
                    &&& action_views(actions@) == seq![
                        header,
                        ActionView::FindPlayer { session_id: f.id, name: f.name },
                    ]
                } else {
                    let g = start_view(quiz, None);
                    &&& final(self)@.stage == Stage::Playing
                    &&& final(self)@.quiz is None
                    &&& final(self)@.game == Some(g)
                    &&& action_views(actions@) == seq![header] + next_actions(g)
                }
            }),
    {
        proof {
            crate::nest::lemma_nest_shape(rows@);
        }
        let quiz = flat_to_nested_quiz(rows);
        let mut actions: Vec<Action> = Vec::new();
        push_action(&mut actions, Action::SendQuiz(quiz_header(&quiz)));
        if self.in_session {
            push_action(
                &mut actions,
                Action::FindPlayer { session_id: self.id, name: self.name.clone() },
            );
            self.quiz = Some(quiz);
            self.stage = Stage::FindingPlayer;
        } else {
            self.begin_game(quiz, &mut actions);
        }
        assert(action_views(actions@).len() == actions@.len());
        assert(action_views(actions@)[0] == actions@[0]@);
        actions
    }

    /// Takes the result of looking up the player by name. A player known
    /// under that name does not play again: the standing is polled at once.
    /// Otherwise a new player is stored under that name.
    pub fn on_player_lookup(&mut self, found: Option<Player>) -> (actions: Vec<Action>)
        requires
            old(self).wf(),
            old(self)@.stage == Stage::FindingPlayer,
        ensures
            final(self).wf(),
            found is Some ==> {
                &&& final(self)@ == (FlowView { stage: Stage::Polling, quiz: None, ..old(self)@ })
                &&& action_views(actions@) == seq![ActionView::LoadPlayers { session_id: old(self)@.id }]
            },
            found is None ==> {
                &&& final(self)@ == (FlowView { stage: Stage::CreatingPlayer, ..old(self)@ })
                &&& action_views(actions@) == seq![
                    ActionView::CreatePlayer { session_id: old(self)@.id, name: old(self)@.name },
                ]
            },
    {
        let mut actions: Vec<Action> = Vec::new();
        match found {
            Some(_) => {
                self.quiz = None;
                self.stage = Stage::Polling;
                push_action(&mut actions, Action::LoadPlayers { session_id: self.id });
            },
            None => {
                self.stage = Stage::CreatingPlayer;
                push_action(
                    &mut actions,
                    Action::CreatePlayer { session_id: self.id, name: self.name.clone() },
                );
            },
        }
        actions
    }

    /// Takes the stored new player, who then plays the quiz with the score
    /// stored under the player's id.
    pub fn on_player_created(&mut self, player: Player) -> (actions: Vec<Action>)
        requires
            old(self).wf(),
            old(self)@.stage == Stage::CreatingPlayer,
        ensures
            ({
                let g = start_view(old(self)@.quiz->0, Some(player.player_id));
                &&& final(self).wf()
                &&& final(self)@ == (FlowView {
                    stage: Stage::Playing,
                    quiz: None,
                    game: Some(g),
                    player_id: Some(player.player_id),
                    ..old(self)@
                })
                &&& action_views(actions@) == next_actions(g)
            }),
    {
        let mut actions: Vec<Action> = Vec::new();
        assert(action_views(actions@) =~= Seq::<ActionView>::empty());
        self.player_id = Some(player.player_id);
        let quiz = self.quiz.take().unwrap();
        self.begin_game(quiz, &mut actions);
        assert(action_views(actions@) =~= next_actions(start_view(old(self)@.quiz->0, Some(player.player_id))));
        actions
    }

    /// Whether answer `a` would earn a point while the score is already
    /// `i32::MAX`, where the score cannot grow.
    pub fn answer_would_overflow(&self, a: IncomingWebsocketAnswer) -> (r: bool)
        requires
            self.wf(),
            self@.stage == Stage::Playing,
        ensures
            r == (earns_point(self@.game->0.quiz, self@.game->0.position, a) && self@.game->0.score
                == i32::MAX),
    {
        match &self.game {
            Some(game) => game.would_earn_point(a) && game.score() == i32::MAX,
            None => false,
        }
    }

    /// Takes the player's answer to the current question (see
    /// `answer_actions`). After the last question the game is over: in a
    /// session the player is to be marked finished, alone the socket is to
    /// be closed.
    pub fn on_answer(&mut self, a: IncomingWebsocketAnswer) -> (actions: Vec<Action>)
        requires
            old(self).wf(),
            old(self)@.stage == Stage::Playing,
            !(earns_point(old(self)@.game->0.quiz, old(self)@.game->0.position, a)
                && old(self)@.game->0.score == i32::MAX),
        ensures
            ({
                let f = old(self)@;
                let g = after_answer(f.game->0, a);
                let over = f.game->0.position + 1 == f.game->0.quiz.questions.len();
                &&& final(self).wf()
                &&& (over && !f.in_session) ==> final(self)@.stage == Stage::Closed
                    && actions@.len() > 0 && actions@.last()@ == ActionView::Close
                &&& (over && f.in_session) ==> final(self)@.stage == Stage::MarkingFinished
                    && actions@.len() > 0 && actions@.last()@ == (ActionView::MarkFinished { player_id: f.player_id->0 })
                &&& !over ==> final(self)@.stage == Stage::Playing
                &&& if game_over(g) {
                    &&& final(self)@ == (FlowView { stage: game_over_stage(f), game: None, ..f })
                    &&& action_views(actions@) == answer_actions(f.game->0, a) + game_over_actions(f)
                } else {
                    &&& final(self)@ == (FlowView { game: Some(g), ..f })
                    &&& action_views(actions@) == answer_actions(f.game->0, a)
                }
            }),
    {
        let mut game = self.game.take().unwrap();
        let mut actions = game.on_answer(a);
        if game.is_finished() {
            self.end_game(&mut actions);
            assert(action_views(actions@).last() == actions@.last()@);
        } else {
            self.game = Some(game);
        }
        actions
    }

    /// Takes the news that the player is stored as finished, and polls the
    /// standing of the session.
    pub fn on_finish_recorded(&mut self) -> (actions: Vec<Action>)
        requires
            old(self).wf(),
            old(self)@.stage == Stage::MarkingFinished,
        ensures
            final(self).wf(),
            final(self)@ == (FlowView { stage: Stage::Polling, ..old(self)@ }),
            action_views(actions@) == seq![ActionView::LoadPlayers { session_id: old(self)@.id }],
    {
        let mut actions: Vec<Action> = Vec::new();
        self.stage = Stage::Polling;
        push_action(&mut actions, Action::LoadPlayers { session_id: self.id });
        actions
    }

    /// Takes the session's players and sends their standing, saying whether
    /// the game has ended, which it has when every player has finished.
    /// Then the socket is closed if it has; otherwise the standing is polled
    /// again after a second.
    pub fn on_players(&mut self, players: Vec<Player>) -> (actions: Vec<Action>)
        requires
            old(self).wf(),
            old(self)@.stage == Stage::Polling,
        ensures
            ({
                let done = everyone_finished(players@);
                let standing = ActionView::SendPlayerResults(
                    PlayerResultView {
                        message_type: WebsocketMessage::PlayerResults,
                        players: players@.map_values(|p: Player| p@),
                        game_ended: done,
                    },
                );
                &&& final(self).wf()
                &&& (exists|i: int| 0 <= i < players.len() && !(#[trigger] players@[i]).finished) ==> {
                    &&& final(self)@.stage == Stage::Polling
                    &&& action_views(actions@)[0] matches ActionView::SendPlayerResults(r) && !r.game_ended
                }
                &&& (forall|i: int| 0 <= i < players.len() ==> (#[trigger] players@[i]).finished) ==> {
                    &&& final(self)@.stage == Stage::Closed
                    &&& action_views(actions@)[0] matches ActionView::SendPlayerResults(r) && r.game_ended
                }
                &&& done ==> {
                    &&& final(self)@ == (FlowView { stage: Stage::Closed, ..old(self)@ })
                    &&& action_views(actions@) == seq![standing, ActionView::Close]
                }
                &&& !done ==> {
                    &&& final(self)@ == old(self)@
                    &&& action_views(actions@) == seq![
                        standing,
                        ActionView::Pause { seconds: 1 },
                        ActionView::LoadPlayers { session_id: old(self)@.id },
                    ]
                }
            }),
    {
        let done = all_finished(&players);
        let mut actions: Vec<Action> = Vec::new();
        let standing = WebsocketPlayerResult {
            message_type: WebsocketMessage::PlayerResults,
            players,
            game_ended: done,
        };
        push_action(&mut actions, Action::SendPlayerResults(standing));
        if done {
            push_action(&mut actions, Action::Close);
            self.stage = Stage::Closed;
        } else {
            push_action(&mut actions, Action::Pause { seconds: 1 });
            push_action(&mut actions, Action::LoadPlayers { session_id: self.id });
        }
        actions
    }
}

} // verus!
