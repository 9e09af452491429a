# jukebox

A terminal jukebox: it plays the mp3 files of `~/music` in shuffled order,
shows the title, artist and comments of the song that plays with the volume,
and shows the state of its login to OBS over a websocket.

- `src/` is the verified library: the player's state and commands
  (`player`), the key map (`state`), the panes' contents (`widgets`,
  `status`), the OBS requests, reply assembly and password answer (`obs`),
  and decimal rendering (`text`).
- `app/` is the program around it: the terminal (crossterm, tui), the audio
  device (rodio), the tags (id3), the music directory, the threads and
  channels, and the websocket connection (embedded-websocket).

The volume is counted in whole percent, from 0 to 100, in steps of 5; the
audio sink gets it as a factor (`percent / 100`).
