# bzlui

A terminal browser for Bazel workspaces. It lists the rules of a workspace with one
query, shows the packages as a tree, and builds, runs and tests the rules in it.

`src/` is the library, verified with Verus:

- `text`: trimming, splitting, joining and ordering text
- `trie`: the packages of a workspace in a trie of the `trie_rs` crate
- `bazel`: the queries and commands, and what their answers mean
- `run`: reading the output of a running command
- `app`: where the user stands in the workspace
- `key`: the keys that mean something
- `scene`: what is drawn, as plain values
- `list_view`, `modal`, `ui`: the lists, the windows over them, and the screen
- `laws`: what holds of the library as a whole

`app/` is the program around it: it runs the commands, reads the keys and paints what
the library has drawn.
