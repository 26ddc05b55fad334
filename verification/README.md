# chat_server

A chat-room server. The library (`src/`, verified with Verus) holds its logic:

- `websocket`: the room registry `ChatServer` — which clients are connected to
  which room — with connect, disconnect, session numbers for websocket
  connections and the delivery list of a room message, specified over a map
  from room id to the room's members in join order.
- `handlers::websocket`: the decision taken for each incoming frame
  (`handle_ws_event`) and the join/leave notices.
- `time`: instants, and hours added to them by chrono.
- `handlers::messages`: the rules of the message endpoints — room check,
  default retention, expiry time, the answers.
- `text`: decimal notation of counts.

`app/` is the program around it: the actix actor and HTTP server, the websocket
handshake and socket, the database (sea-orm) and JSON (serde).
