# sender

The laptop side of a phone ⇄ laptop sync over Wi-Fi: text and pictures sent from
either side land in the other side's clipboard.

- `src/` is the verified library:
  - `link.rs`: one phone connection as a state machine (PIN check on the first
    frame, then relaying), with its laws;
  - `console.rs`: the terminal interface's state (log, input line, keys, events),
    headless mode and what the screen shows;
  - `clip.rs`: pictures for and from the clipboard (base64, PNG, scaling);
  - `qr.rs`: the pairing payload and its QR rows;
  - `store.rs`: safe file names and PINs;
  - `proto.rs`: the protocol messages, timestamps and ids;
  - `text.rs`: string building blocks (trimming, lines, numbers).
- `app/` is the program around it: sockets, the terminal, the clipboard thread,
  files and the JSON form of the messages.
- `tests/` exercises the library.
