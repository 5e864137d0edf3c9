# jayjay

The logic behind a Jujutsu GUI's line statistics and settings window, as a
verified library:

- `line_counts`: inserted and deleted lines of a change, split into source
  files and all files, each count held at `u32::MAX`.
- `source_path`: whether a path names a programming, markup or prose file,
  by its last component in ASCII lower case, against tables of extensions and
  file names.
- `jj_config`: `jj config list` output grouped into sections, and what the
  Jujutsu part of the settings window shows.
- `graph_stats`: the commit graph's cache of diff statistics, with its queue
  and the one computation in flight, as steps from state to state.
- `app_config`: the app's configuration and the store that holds it.
- `about`, `tools`, `header`, `theme`: what the about and tools parts of the
  settings window and the header of the diff's file list show (captions,
  icons, links, the state of each switch and the color role each state
  picks); the drawing itself is left to the window toolkit.
- `text`: lines, trimming, searching and ASCII case folding over characters.

`app/` runs the external commands and prints what the library decides.
