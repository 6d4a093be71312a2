# ytmp3

A front end to `yt-dlp` that downloads the audio of a video page as MP3, M4A
or Opus, from the command line or from a small local web page.

- `src/` is the verified library: the argument lists given to `yt-dlp`, the
  reading of its output and exit status, the web page's HTML, the form it
  posts, the table of download jobs and the JSON of the progress endpoint,
  and the parsing and framing of HTTP requests and replies.
  - `text`: character-level specifications and helpers (trimming, case,
    substring search, decimal rendering and parsing).
  - `cli`: the options of a download and the choice of the output folder.
  - `error`: the failures, their exit codes and their texts.
  - `ytdlp`: arguments for the dry run and the download; file name, error
    and exit reading.
  - `ui`: escaping, the page, the form and the answer to it.
  - `jobs`: the job table and the progress endpoint.
  - `http`: request line, headers, routing and the reply.
  - `steps`: the steps of one download as a state machine, with the rule
    that a file already on disk is not downloaded again.
- `app/` runs the processes, the terminal progress bar and the server's
  sockets and threads around the library.
- `tests/` exercise the library on concrete values.
