# phosyncra

Music-synchronised smart lighting for Linux. A playback provider (Spotify)
reports what is playing; a monotonic playback clock follows it between
reports; a beat timeline from a cached analysis document is walked by a
latency-aware scheduler; each released event becomes a light pulse for a
lighting backend (a virtual light, or a Matter light driven through the
official `chip-tool`).

## Layout

- `src/` — the library, verified with Verus: playback time (`time`), track
  identities (`track`), the playback clock (`clock`) and tracker (`tracker`),
  beat timelines (`timeline`), the scheduler (`scheduler`), pulses (`effect`),
  live-sync sessions (`session`), analysis documents (`analysis`) and their
  cache keys and files (`cache`, `dirs`), MusicBrainz matching
  (`musicbrainz`), AcousticBrainz beats (`acousticbrainz`), Spotify playback
  and tokens (`spotify`), the PKCE authorisation flow (`oauth`), Matter
  targets and `chip-tool` command lines (`matter`), digests (`hashing`) and
  text handling (`text`).
- `app/` — the `phosyncra` program around it: command line, HTTP, files,
  sockets, subprocesses, the event loops and the floating-point colour
  arithmetic.
- `tests/` — tests of the library.
