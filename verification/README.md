# ttrpg_maker

A tool for running tabletop role-playing campaigns: dice rolls and opposed
outcomes, narrative texts and roll tables, campaign entities, and the SQLite
statements that store them.

- `src/` is the library, written in Verus and verified:
  - `text`: decimal numbers written and parsed, SQL quote escaping;
  - `roll_dice`: rolls, outcomes (sums, attribute rolls that drop a die,
    criticals) and opposed rolls;
  - `narratives`: typed narratives, roll tables, and tables written to and
    read back from JSON;
  - `entities`: attributes, skills, counters and tables, and the SQL
    statements that save, update and delete them;
  - `store`: campaign statements, what opening a campaign does, and
    reading stored rows back;
  - `audio`: the format a recording needs for transcription, and the name
    of the file it is converted into.
- `app/` is the desktop program around it: the egui window, running SQL on
  SQLite, summaries of stories, recording and transcribing audio.
- `tests/` runs the library on concrete values.
