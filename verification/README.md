# prowl

The logic of a terminal dashboard that watches a GitHub repository: your open
pull requests, the merge queue, what merged recently, the reviews that wait for
you, and the commits that each release shipped. It rings the bell when one of
your pull requests merges or the status of an open one changes.

The library under `src/` is verified with Verus: each function states what it
returns, and the laws that relate functions stand beside them as proofs.

- `text`, `order`: strings, numbers and stable sorting.
- `status`, `model`: the palette, the shapes of the server's answers, the
  queries, and how a status is derived.
- `queue`, `prs`, `merged`, `reviews`, `commits`: the rows of the sections, how
  they sort, and their tables.
- `changes`, `snapshot`: what changed since the last refresh.
- `canvas`, `render`, `shipments`, `dashboard`, `frame`: painting.
- `layout`: what fits on a screen, and what is left out until it does.
- `nav`, `ui`, `term`, `watch`: selection, search, keys, and the state of the
  watch.
- `cli`, `timefmt`, `github`, `gh`, `auth`, `cache`, `open`, `fetch`: options,
  times, repositories, requests and answers.

`app/` is the program around it: the command line, HTTP, the keyring, files and
the terminal. `tests/` runs the library.
