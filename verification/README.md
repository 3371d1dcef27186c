# vk_multitool

A small command-line multitool for VK.com. Its one tool, "voter", reports
for a poll which members of a chat voted (and for which answer), which did
not, and who voted without being a member.

- `src/` is the verified library:
  - `args_parser` — settings (`Value`, `Convert`), the configuration file
    and the command-line options;
  - `tools/voter` — the `OwnerID:PollID:ChatID:lang` argument, the tally of
    votes, the report, and the session that decides which API request comes
    next (`start`, `execute`);
  - `vk`, `methods` — API addresses, requests and error replies;
  - `cli` — which tool a run starts;
  - `text` — decimal notation, splitting and joining.
- `app/` is the program around it: command-line parsing with clap, file
  reading and writing, HTTP with reqwest, JSON with serde_json, and colored
  error output.
- `tests/` runs the library on concrete inputs.
