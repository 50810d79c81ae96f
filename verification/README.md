# App Pro

A Linux system utility: it installs `.deb`, `.AppImage`, `.zip` and `.tar.gz`
(`.tgz`) packages, lists and removes what it installed, watches and ends processes,
cleans caches, shows system information and updates itself.

The decisions of the tool are a Verus library (`src/`), proved against
specifications over sequences, maps and views:

- `text`, `paths`: the string and path operations everything else is stated
  with (splitting, trimming, decimal and hexadecimal numbers, file names,
  extensions, joining).
- `installer`: telling a package's kind from its name, and what each
  installer reports for every outcome of the steps it takes.
- `manager`: the records kept of installations, reading desktop entries and
  ordering them, and reading processes out of `/proc` texts.
- `launcher`: finding an application's desktop entry again and the commands
  that start it.
- `cleaner`, `sysinfo`, `updater`, `cli`, `dashboard`, `update_panel`,
  `appearance`: what the cleaners report, system figures from `/proc` texts,
  version comparison and release selection, the command line, and the
  decisions of the dashboard's pages.

`app/` is the program around it: it runs commands, reads and writes files,
keeps the SQLite database, and draws the GTK dashboard, handing the library
plain values and acting on what it returns.
