# gpui_chat_clone

The presentation models and interaction logic behind the native agent
client's conversation surfaces, written in Verus with their behaviour stated
as contracts and proved.

- `src/` — the verified library:
  - `text`, `keys`, `paths`: character-level text helpers, keystroke names,
    and lexical Unix paths (components, joining, relative display paths,
    file names and extensions).
  - `approval`, `file_change`, `review`: command/network and file approval
    cards (keyboard model, menus, answers), the completed file-change row,
    and the diff review parsed from unified diffs.
  - `auto_approval`: labels of automatic approval reviews.
  - `activity`, `disclosure`, `requests`: the activity timeline (tool
    groups, live reasoning, command rows, reasoning titles and bodies), the
    user's disclosure choices, and routing of card events and keystrokes,
    the answers they send, how answering went, and which request cards
    show.
  - `user_input`, `permissions`: requests for user input (questions
    answered in turn) and for additional permissions.
  - `review_history`: the review the composer opens for the latest
    changes.
  - `composer`: the permission menu and mode updates, dictation, prompt
    submission, the thinking shimmer and the send button's particle layers.
  - `file_panel`: the workspace file tree, its keyboard navigation and
    filter, and the open documents with their load/save/close life cycle.
- `app/` — the floating-point geometry and motion that the rendering layer
  applies to those models.
- `tests/` — tests of the library.
