# icon_finder

Finds the file of a named icon the way the freedesktop Icon Theme
Specification describes: in the user's theme and, depth first, the themes it
inherits from, then in `hicolor` and its ancestors, and last among the
un-themed icons. Within a theme, a sub-directory of the wanted size is tried
first, then the icon of the nearest size.

The library under `src/` is verified with Verus. It does no I/O: where the
lookup needs to know what is on disk, it lists what it wants to know and takes
the answers as arguments, and the search across themes is a state machine
that asks for one thing at a time.

- `path`: Unix path components, file names and joining.
- `theme`: theme directories, themes and their sub-directories.
- `size`: whether a sub-directory suits a size, and how far it is from it.
- `text`: the std string operations the matching relies on.
- `lookup`: finding theme directories by name.
- `config`: the user's theme from the KDE and GTK settings (read with `tini`).
- `theme_file`: reading an `index.theme` text (with `tini`).
- `icon`: the lookup inside one theme and among the un-themed icons.
- `search`: the search across themes.
- `hierarchy`: the proof that the search ends where the recursive lookup of
  the specification ends.

`app/` holds the file-system side: it finds the icon directories and settings
files, reads index files, probes for icon files and drives the search.
