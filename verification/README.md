# quiz

A quiz server whose rules are a verified library.

- `src/` is the library, verified with Verus:
  - `records`: quizzes, questions, answers, sessions and players, and what each says;
  - `ident`: reading a quiz or session identifier from a request path;
  - `nest`: turning the rows of the quiz/question/answer join into a quiz;
  - `messages`: the websocket messages and how they are built from a quiz;
  - `actions`: the outside work the state machines ask for;
  - `game`: playing a quiz, question by question, with scoring;
  - `flow`: a whole websocket conversation, alone or in a session.
- `app/` is the server (tide, sqlx on Postgres, websockets): it reads and
  writes the database, sends and receives messages, and otherwise does what
  the library's state machines decide.
- `tests/` runs the library on concrete quizzes.
