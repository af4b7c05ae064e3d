# minc

The text shim between a local coding agent and the Minc ask API, written in
Verus. Minc has no structured tool calls: the agent sends a transcript and a
system prompt as URL query parameters, and Minc answers either in plain text
or with one directive block:

```text
<minc:function [namespace="ns"] name="tool">{"json":"arguments"}</minc:function>
<minc:custom [namespace="ns"] name="tool">raw tool input</minc:custom>
```

## Layout

- `src/text.rs` – strings as `Seq<char>`: trimming, searching, joining.
- `src/truncate.rs` – character-budget truncation with markers.
- `src/sanitize.rs` – shrinking the base instructions.
- `src/types.rs` – conversation items, tools, events, errors, and their views.
- `src/json.rs` – the serde_json calls, behind trusted wrappers.
- `src/directive.rs` – reading a directive out of an answer and matching it
  to the advertised tools.
- `src/grammar.rs` – laws of the directive grammar (plain text stays plain,
  a written directive reads back, a second block after the first is
  refused).
- `src/transcript.rs` – the transcript, execution state, tool catalog and
  system prompt.
- `src/request.rs` – the ask URL (through the url crate) and fitting the
  request into its length budget.
- `src/response.rs` – checking a reply and turning it into stream events.
- `src/models.rs` – the Minc modes and the models URL.
- `app/lib.rs` – HTTP, JSON bodies and the event channel (not verified).
