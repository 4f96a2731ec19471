# gbackup

Backs up GMail accounts over IMAP into an SQLite database, and exports the copy as an mbox file.

- Backups are incremental: only messages that the database does not hold are fetched.
- A backup is one transaction: it is kept as a whole, or not at all.
- The fetching is divided among a number of workers.

## Layout

`src/` is the library, verified with Verus. It decides; it does no input or output. A backup
(`backup.rs`) and an export (`export.rs`) are step machines: each step says what is to be reported
and done next, and the next step is told how that went. What holds of whole runs is stated and
proved in `laws.rs`, and of their parts in `table.rs`, `uids.rs`, `separator.rs`, `mbox.rs` and
`lines.rs`. All that is believed of outside code
stands in `mail.rs` (the mail parser and the calendar) and at the end of `text.rs` (the standard
library).

`app/` is the program around it: the command line, the configuration file, the sessions with the
mail server, the database and the output.

## Configuration

By default `.gbackup.toml` in the working directory:

```toml
[[accounts]]
    username = "firstname.lastname@gmail.com"
    [accounts.password]
        type = "EnvVar"
        name = "GMAIL_PASSWORD"
    [accounts.backup]
        type = "Sqlite"
        backup_dir = "/home/firstname/gmail_backup/"
    [accounts.export]
        type = "Mbox"
        path = "/home/firstname/gmail.mbox"
```

`gbackup -w 10` backs up with ten workers; `gbackup export` runs the export.
