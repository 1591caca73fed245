# stratmat

The verified core of Stratmat, a raid-planning whiteboard for FFXIV fights, and of
Tataru, the tool that writes the `.listing` files telling the game which assets exist.
Everything under `src/` is written in Verus and proved against its `requires`/`ensures`
contracts.

## Layout

- `src/text.rs`, `src/sorting.rs`: the byte order of strings (a strict total order,
  proved), suffix tests, and a sort that is proved to order and keep every string.
- `src/tataru.rs`: directory listings. The walk itself is done by the caller; each entry
  is handed to `Listing::visit_entry`, which keeps subdirectories in name order (one
  listing per name) and collects the files with the wanted extension; `Listing::finish`
  sorts them. Also the choice of extension for a directory.
- `src/asset_listing.rs`: a listing resolved against the directory it was read from;
  proved to name exactly the listed files, each under its full asset path.
- `src/arena.rs`: arena asset paths and the arena menu built from a listing.
- `src/job.rs`, `src/waymark.rs`, `src/spawner.rs`: jobs, waymarks and the spawners that
  place them, with the rule that a unique target's spawner is disabled while the target
  is on the board.
- `src/conflicts.rs`: the report shown when a nested system's data access conflicts with
  systems still running; Bevy's `Access` is read through trusted wrappers.
- `src/report.rs`: the message logged for a refused nested system, with the tables laid out
  by prettytable.
- `src/nested.rs`: the nested-system registry (a system cannot run inside itself) and the
  stack of running systems (a system is let in only when compatible with all of them).
- `src/lifecycle.rs`: hooks that run once an asset is loaded (at most once each, when the asset is fully loaded).
- `src/future.rs`: a value that is set once and awaited, behind vstd's verified lock.
- `app/`: the Tataru command line (file system walk, JSON output) and the waymark preset
  format, whose coordinates are floating point.
- `tests/`: tests of the library, run against the real Bevy and `fixedbitset`.
