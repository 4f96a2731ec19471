use gbackup::config::{ExportEngineConfig, GBackupAccount, LoadPassword};
use gbackup::error::ExportEngineError;
use gbackup::mbox::{ExportTarget, MboxAction, MboxEngine, MboxEvent, MboxRun};
use gbackup::message::ExportEmail;
use gbackup::separator::{extract_single, find_from, read_headers, write_line, HeaderReading};

fn email(uid: u32, raw: &str) -> ExportEmail {
    ExportEmail { raw_data: raw.as_bytes().to_vec(), uid }
}

fn account(path: Option<&str>) -> GBackupAccount {
    GBackupAccount {
        username: "u".to_string(),
        password: LoadPassword::EnvVar { name: "P".to_string() },
        backup: None,
        export: Some(ExportEngineConfig::Mbox { path: path.map(|p| p.to_string()) }),
    }
}

fn failure(raw: &str) -> String {
    match MboxEngine::checked_from_line(&email(17, raw)) {
        Some(Err(ExportEngineError::MboxFormatError(text))) => text,
        _ => panic!("no failure"),
    }
}

const GOOD: &str = "Subject: Hi\r\nFrom: John Doe <john@doe.com>\r\n\
    Date: Sun, 02 Oct 2016 07:06:22 -0700 (PDT)\r\n\r\nBody\r\n";

#[test]
fn from_line_names_sender_and_date_in_utc() {
    let line = MboxEngine::get_from_line(&email(1, GOOD)).unwrap();
    assert_eq!(line, b"From john@doe.com Sun Oct 02 14:06:22 2016\n".to_vec());
    assert_eq!(MboxEngine::checked_from_line(&email(1, GOOD)).unwrap().unwrap(), line);
}

#[test]
fn header_names_are_found_in_any_case() {
    let raw = "fRoM: a@b.c\nDATE: Fri, 30 Nov 2012 20:57:23 GMT\n\n";
    let line = MboxEngine::checked_from_line(&email(1, raw)).unwrap().unwrap();
    assert_eq!(line, b"From a@b.c Fri Nov 30 20:57:23 2012\n".to_vec());
}

#[test]
fn first_of_several_headers_counts() {
    let raw = "From: one@x.y\nFrom: two@x.y\nDate: 1 Jan 1970 00:00:00 +0000\nDate: nonsense\n\n";
    let line = MboxEngine::checked_from_line(&email(1, raw)).unwrap().unwrap();
    assert_eq!(line, b"From one@x.y Thu Jan 01 00:00:00 1970\n".to_vec());
}

#[test]
fn folded_sender_stays_on_one_line() {
    let raw = "From: \"A\n B\"\n <a\n b@c.d>\nDate: 17 Sep 2016 16:05:38 -1000\n\n";
    let line = MboxEngine::checked_from_line(&email(1, raw)).unwrap().unwrap();
    assert_eq!(line.iter().filter(|b| **b == b'\n').count(), 1);
    assert_eq!(line.last(), Some(&b'\n'));
    assert!(line.starts_with(b"From a b@c.d "));
}

#[test]
fn headers_that_cannot_be_read() {
    assert_eq!(failure("From: a@b.c\n\rX"), "Can't parse headers for email: 17!");
}

#[test]
fn sender_is_missing() {
    assert_eq!(failure("Date: 1 Jan 2020 00:00:00 +0000\n\n"), "Can't find 'From' header in: 17");
}

#[test]
fn date_is_missing() {
    assert_eq!(failure("From: a@b.c\n\n"), "Can't find 'Date' header in: 17");
}

#[test]
fn sender_is_no_address() {
    assert_eq!(
        failure("From: nobody\nDate: 1 Jan 2020 00:00:00 +0000\n\n"),
        "Can't parse address from header in email: 17!"
    );
}

#[test]
fn sender_is_not_a_single_address() {
    for from in ["a@b.c, d@e.f", "friends: a@b.c, d@e.f;", ""] {
        assert_eq!(
            failure(&format!("From: {}\nDate: 1 Jan 2020 00:00:00 +0000\n\n", from)),
            "Can't find a single address from header in email: 17"
        );
    }
}

#[test]
fn date_cannot_be_read() {
    assert_eq!(
        failure("From: a@b.c\nDate: 1 Foo 2020 00:00:00 +0000\n\n"),
        "Can't parse Date from header in email: 17"
    );
}

#[test]
fn date_is_not_on_the_calendar() {
    let raw = "From: a@b.c\nDate: 1 Jan 4000000000 00:00:00 +0000\n\n";
    assert!(MboxEngine::checked_from_line(&email(1, raw)).is_none());
    assert!(MboxEngine::entry(&email(1, raw)).is_none());
    let last = "From: a@b.c\nDate: 31 Dec 262142 23:59:59 +0000\n\n";
    assert_eq!(
        MboxEngine::checked_from_line(&email(1, last)).unwrap().unwrap(),
        b"From a@b.c Mon Dec 31 23:59:59 +262142\n".to_vec()
    );
    let next = "From: a@b.c\nDate: 1 Jan 262143 00:00:00 +0000\n\n";
    assert!(MboxEngine::checked_from_line(&email(1, next)).is_none());
    // A sender that cannot be read is told of first.
    let both = "From: nobody\nDate: 1 Jan 4000000000 00:00:00 +0000\n\n";
    assert_eq!(failure(both), "Can't parse address from header in email: 17!");
}

#[test]
fn headers_are_read() {
    let reading = read_headers(&GOOD.as_bytes().to_vec());
    assert_eq!(
        reading.keys,
        Some(vec!["subject".to_string(), "from".to_string(), "date".to_string()])
    );
    assert_eq!(reading.date_value, Some("Sun, 02 Oct 2016 07:06:22 -0700 (PDT)".to_string()));
    assert_eq!(reading.addresses, Some(vec![Some("john@doe.com".to_string())]));
    assert_eq!(reading.date, Some(1475417182));
    assert_eq!(reading.date_text, Some("Sun Oct 02 14:06:22 2016".to_string()));
    let group = read_headers(&b"From: g: a@b.c;\n\n".to_vec());
    assert_eq!(group.addresses, Some(vec![None]));
}

#[test]
fn line_is_decided_by_the_reading() {
    let reading = HeaderReading {
        keys: Some(vec!["to".to_string(), "from".to_string()]),
        date_value: Some("d".to_string()),
        addresses: Some(vec![Some("\u{e9}@b.c".to_string())]),
        date: Some(5),
        date_text: Some("some day".to_string()),
    };
    assert_eq!(
        write_line(1, &reading).unwrap().unwrap(),
        "From \u{e9}@b.c some day\n".as_bytes().to_vec()
    );
    assert!(write_line(1, &HeaderReading { date_text: None, ..reading }).is_none());
}

#[test]
fn from_header_is_looked_up() {
    let keys = |names: &[&str]| names.iter().map(|n| n.to_string()).collect::<Vec<_>>();
    assert_eq!(find_from(&keys(&["to", "from", "from"])), Some(1));
    assert_eq!(find_from(&keys(&["to", "From"])), None);
    assert_eq!(find_from(&keys(&[])), None);
}

#[test]
fn single_mailbox_is_extracted() {
    let a = Some("a@b".to_string());
    assert_eq!(extract_single(&vec![a.clone()]), a);
    assert_eq!(extract_single(&vec![None]), None);
    assert_eq!(extract_single(&vec![a.clone(), a.clone()]), None);
    assert_eq!(extract_single(&vec![]), None);
}

#[test]
fn entry_is_line_message_and_break() {
    let mut expected = b"From john@doe.com Sun Oct 02 14:06:22 2016\n".to_vec();
    expected.extend_from_slice(GOOD.as_bytes());
    expected.push(b'\n');
    assert_eq!(MboxEngine::entry(&email(1, GOOD)).unwrap().unwrap(), expected);
}

#[test]
fn target_is_the_configured_file() {
    let to_file = account(Some("/x.mbox"));
    let engine = MboxEngine { account: &to_file };
    assert!(matches!(engine.target(), ExportTarget::File(path) if path == "/x.mbox"));
    let to_stdout = account(None);
    let engine = MboxEngine { account: &to_stdout };
    assert!(matches!(engine.target(), ExportTarget::Stdout));
}

#[test]
fn export_writes_entries_and_tells_of_the_rest() {
    let account = account(None);
    let engine = MboxEngine { account: &account };
    let mut run = MboxRun::new(vec![email(1, GOOD), email(2, "To: x\n\n"), email(3, GOOD)]);
    let mut written = Vec::new();
    let mut told = Vec::new();
    let mut event = MboxEvent::Start;
    loop {
        assert!(run.awaits(&event));
        event = match engine.export_emails(&mut run, event) {
            MboxAction::Open(_) => MboxEvent::Opened(Ok(())),
            MboxAction::Write(bytes) => {
                written.extend_from_slice(&bytes);
                MboxEvent::Written(Ok(()))
            }
            MboxAction::Tell(line) => {
                told.push(line);
                MboxEvent::Told
            }
            MboxAction::Undated { .. } => panic!("undated"),
            MboxAction::Finish(result) => {
                assert!(result.is_ok());
                break;
            }
        };
    }
    let mut expected = MboxEngine::entry(&email(1, GOOD)).unwrap().unwrap();
    expected.extend(MboxEngine::entry(&email(3, GOOD)).unwrap().unwrap());
    assert_eq!(written, expected);
    assert_eq!(
        told,
        vec!["Error parsing email: MboxFormatError(\"Can't find 'From' header in: 2\")!".to_string()]
    );
    assert!(!run.awaits(&MboxEvent::Told));
}

#[test]
fn export_stops_where_it_cannot_write() {
    let account = account(Some("f"));
    let engine = MboxEngine { account: &account };
    let mut run = MboxRun::new(vec![email(1, GOOD), email(2, GOOD)]);
    engine.export_emails(&mut run, MboxEvent::Start);
    engine.export_emails(&mut run, MboxEvent::Opened(Ok(())));
    match engine.export_emails(&mut run, MboxEvent::Written(Err("full".to_string()))) {
        MboxAction::Finish(Err(e)) => assert_eq!(e.message(), "Export engine IO error: full"),
        _ => panic!("goes on"),
    }
    let mut run = MboxRun::new(vec![email(1, GOOD)]);
    engine.export_emails(&mut run, MboxEvent::Start);
    match engine.export_emails(&mut run, MboxEvent::Opened(Err("no".to_string()))) {
        MboxAction::Finish(Err(e)) => assert_eq!(e.message(), "Export engine IO error: no"),
        _ => panic!("goes on"),
    }
}

#[test]
fn export_gives_up_on_a_date_off_the_calendar() {
    let account = account(None);
    let engine = MboxEngine { account: &account };
    let raw = "From: a@b.c\nDate: 1 Jan 4000000000 00:00:00 +0000\n\n";
    let mut run = MboxRun::new(vec![email(9, raw)]);
    engine.export_emails(&mut run, MboxEvent::Start);
    assert!(matches!(
        engine.export_emails(&mut run, MboxEvent::Opened(Ok(()))),
        MboxAction::Undated { uid: 9 }
    ));
}

#[test]
fn line_depends_on_from_and_date_alone() {
    let line = MboxEngine::checked_from_line(&email(1, GOOD)).unwrap().unwrap();
    let others = [
        "From: John Doe <john@doe.com>\r\nDate: Sun, 02 Oct 2016 07:06:22 -0700 (PDT)\r\n\r\n",
        "X: from: a@b.c\nDate: Sun, 02 Oct 2016 07:06:22 -0700 (PDT)\nTo: x\n\
         From: John Doe <john@doe.com>\nFrom: late@x.y\n\nFrom: body@x.y\nanother body",
        "date: Sun, 02 Oct 2016 07:06:22 -0700 (PDT)\nFROM: John Doe <john@doe.com>\nno colon\n",
    ];
    for (uid, raw) in others.iter().enumerate() {
        let other = MboxEngine::checked_from_line(&email(uid as u32 + 7, raw)).unwrap().unwrap();
        assert_eq!(other, line);
    }
}

fn export(emails: Vec<ExportEmail>) -> Vec<u8> {
    let account = account(None);
    let engine = MboxEngine { account: &account };
    let total = emails.len();
    let mut run = MboxRun::new(emails);
    let mut written = Vec::new();
    let mut replies = 0;
    let mut action = engine.export_emails(&mut run, MboxEvent::Start);
    loop {
        let event = match action {
            MboxAction::Open(_) => MboxEvent::Opened(Ok(())),
            MboxAction::Write(bytes) => {
                written.extend_from_slice(&bytes);
                MboxEvent::Written(Ok(()))
            }
            MboxAction::Tell(_) => MboxEvent::Told,
            MboxAction::Undated { .. } => panic!("undated"),
            MboxAction::Finish(result) => {
                assert!(result.is_ok());
                assert_eq!(replies, total + 1);
                return written;
            }
        };
        replies += 1;
        action = engine.export_emails(&mut run, event);
    }
}

#[test]
fn files_of_two_lists_follow_each_other() {
    let other = "From: a@b.c\nDate: Fri, 30 Nov 2012 20:57:23 GMT\n\nlast";
    let both = export(vec![email(1, GOOD), email(2, "To: x\n\n"), email(3, other)]);
    let mut parts = export(vec![email(1, GOOD), email(2, "To: x\n\n")]);
    parts.extend(export(vec![email(3, other)]));
    assert_eq!(both, parts);
}

#[test]
fn separating_lines_show_where_messages_begin() {
    let other = "From: a@b.c\nDate: Fri, 30 Nov 2012 20:57:23 GMT\n\nlast\n";
    let file = export(vec![email(1, GOOD), email(2, "To: x\n\n"), email(3, other)]);
    let marked: Vec<&[u8]> =
        file.split(|byte| *byte == b'\n').filter(|line| line.starts_with(b"From ")).collect();
    assert_eq!(
        marked,
        vec![
            &b"From john@doe.com Sun Oct 02 14:06:22 2016"[..],
            &b"From a@b.c Fri Nov 30 20:57:23 2012"[..],
        ]
    );
}
