# Audio Orbit

A music player for local files and internet radio that moves the sound around the listener.

The library in `src/` holds the player's rules: playlists and their folders, selection,
ordering and undo, what plays next, radio stations and recordings, sound profiles, the
mix builder, and what is kept between two runs. It is written in Verus. Each function
states in its contract what it returns or changes, and the properties that hold across
functions are public proof functions in the modules they belong to, and in
`app_laws`, `sync_laws` and `favorite_laws`.

The library does no I/O. `AudioOrbitApp` collects what it needs done as values of `Effect`,
and takes what came of it as arguments of its methods. Seconds and levels are held as the
bit patterns of single precision numbers.

- `src/` the verified library
- `tests/` its tests
- `app/` the program: windows, files, streams and sound
