# votrans

A speech-to-text Telegram bot and the server that transcribes for it.

`src/` is the verified library (Verus):

- `text`: character-level helpers (substring search, splitting and joining at
  a character, decimal numbers).
- `markup`: escaping of transcripts for Telegram's MarkdownV2.
- `chunks`: cutting replies into Telegram-sized messages; gathering a
  downloaded file from its pieces.
- `words`: the words a user chooses, and their marking in a transcript.
- `fetch`: deciding what to fetch for a transcription (a link or a file).
- `dialogue`: the bot's conversation as a function from state and message to
  the steps to run.
- `errors`, `api`, `jobs`: the server's errors, its exchanges with the
  recognition service, and the bookkeeping of its jobs.

`app/` holds the programs around it (`bot`, `server`, `local`): Telegram,
HTTP, files, ffmpeg, youtube-dl and Vosk.
