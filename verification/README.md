# btrshot

Planning and bookkeeping for btrfs snapshot backups: full and incremental backups
from one btrfs disk to another, and encrypted uploads to S3 with retention.

The library in `src/` is verified with Verus. It spawns no process and touches no
file. A function such as `backup::full::run_full_backup` returns a value that says
what is to be done next; whoever does it hands back what came of it, until there is
nothing more to do and `finish` gives the result. The contracts say exactly what is
asked for and what every answer leads to.

| Module | What it holds |
|--------|---------------|
| `backup::full`, `backup::incremental`, `backup::s3` | the backups and the upload |
| `backup::action`, `backup::error` | what they ask for, and why they fail |
| `backup::conduct` | what holds of every run of a backup |
| `backup::retention` | what holds of names and of retention |
| `cmd`, `piping` | commands and pipelines, and what holds of every pipeline |
| `state`, `durability` | the state files, and what an interrupted write leaves |
| `validation` | the checks of the two disks |
| `snapshot`, `config`, `clock` | names, configuration, time |
| `text`, `number`, `order`, `path` | what the others need of strings and paths |

`app/` does what the library asks for: it spawns the commands, reads and writes the
files and loads the configuration file.
