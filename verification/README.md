# dynstaller

dynstaller tracks what an installer changes on a Windows machine and packs the
changed files into an archive. It can follow the NTFS change journal, watch a
folder, or record with Process Monitor, and it can run the installer in Windows
Sandbox.

## Layout

- `src/` is the library. Everything in it is verified with Verus: the parsers of
  the journal, of the notifications and of the recorder's details; the rules by
  which events become changes; the state of each monitor; the plan for a sandbox;
  and the names in the archive. The contracts speak of sequences, maps and
  integers, and the laws that span several functions are public proof functions.
- `app/` is the program: the command line, processes, files, the network and the
  calls into Windows. It converts paths and options, asks the library what to do,
  and does it. What hangs on the system alone it settles itself: whether a file
  has to be downloaded, whether a made-up name is free, and whether a process
  ended well.
- `tests/` runs the library on concrete values.

What the library takes from other crates it calls through small trusted
functions, each with a doc comment that says what is believed of the call.

## Files beside the program

The method that works with Process Monitor reads two files from a folder
`procmon` beside the program: `filter.pmc`, the filter for the recording, and
`filesystem.json`, the table of file system operations.
