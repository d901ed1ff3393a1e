# repositories

A virtual `GitHub` folder: files of any repository are reached by paths like
`GitHub/username/repo/README.md`, without cloning. User folders carry the
user's avatar as their icon, repository folders an icon found on the project's
website or in its README, and a browser extension opens GitHub pages in the
editor or the Finder through a native messaging host.

## Layout

- `src/` — the library, verified with Verus:
  - `fs`, `fs_mt`: what a path of the mounted folder names, and the answers
    to the file system's requests (attributes, listings, extended attributes,
    reads);
  - `github`: repositories, branches, trees and blobs as the GitHub API
    describes them, and reading and ranking the images of a README;
  - `icons`: icon sizes, the sizes held in PNG and ICO headers, the icon
    references a page's HTML holds, and the icons they lead to;
  - `icon_manager`: the icon of a user's avatar and the `Icon\r` resource
    fork;
  - `reply`: the times and durations of file-system replies;
  - `native`: the programs the browser extension's requests start;
  - `hello`, `hello_icon`: a small demonstration file system;
  - `text`, `bytes`, `sort`, `matching`, `web`: the text, byte, ordering,
    pattern and URL helpers the rest is built on.
- `tests/`: tests of the library.
- `app/`: the programs around it — the FUSE mount, the native messaging
  host, HTTP fetching, the local store, and rendering pages in a headless
  browser.
