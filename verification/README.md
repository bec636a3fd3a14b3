# aipass

The connection of a desktop application to the AI Pass service, as a library that is verified with
Verus: authorization in the browser with a proof key, tokens that are kept in the keychain and
renewed, the list of models, and chats whose replies are relayed to a consumer.

- `src/` is the library. Every rule of the connection stands there with its contract: which
  endpoints are trusted, which returns of the browser and which token replies are accepted, how
  much of a reply is read, what of a refusal is shown, and what is to be done next while
  connecting, renewing, asking again, clearing and disconnecting.
- `tests/` runs the library on concrete values.
- `app/` is the ordinary Rust around it: requests, the local listener, the keychain, the commands
  of the user interface. It does what the library's tasks say and hands back what came of it.

What is believed rather than proved is the behaviour of the crates that the library calls
(`serde_json`, `url`, `base64`, `sha2`, `rand`, `zeroize`) and of a few functions of the standard
library. Each such call stands in a small function whose comment says what is claimed of it.
