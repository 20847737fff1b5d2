use kip::args::{AddEditData, Command, GetData, Print, Prompt};
use kip::config::Config;
use kip::store::{Event, Op, Store};

// A scripted driver: an in-memory directory of encrypted files, a queue of
// interactive answers, and an identity cipher.
struct Sim {
    files: Vec<(String, String)>,
    answers: Vec<String>,
    printed: Vec<String>,
    clipped: Vec<String>,
}

impl Sim {
    fn new(files: Vec<(&str, &str)>, answers: Vec<&str>) -> Sim {
        Sim {
            files: files.iter().map(|(n, c)| (n.to_string(), c.to_string())).collect(),
            answers: answers.iter().map(|a| a.to_string()).collect(),
            printed: Vec::new(),
            clipped: Vec::new(),
        }
    }

    fn file(&self, name: &str) -> Option<&str> {
        self.files.iter().find(|(n, _)| n == name).map(|(_, c)| c.as_str())
    }
}

fn run(conf: Config, cmd: Command, sim: &mut Sim) -> Result<(), String> {
    let (mut store, mut step) = Store::start(conf, cmd);
    loop {
        for line in step.out {
            sim.printed.push(line);
        }
        let ev = match step.op {
            Op::ReadDir => Event::Listing(sim.files.iter().map(|(n, _)| n.clone()).collect()),
            Op::ReadFile(name) => match sim.file(&name) {
                Some(c) => Event::Data(c.to_string()),
                None => Event::Failed,
            },
            Op::WriteFile(name, ct) => {
                match sim.files.iter_mut().find(|(n, _)| *n == name) {
                    Some(slot) => slot.1 = ct,
                    None => sim.files.push((name, ct)),
                }
                Event::Ack
            },
            Op::RemoveFile(name) => {
                sim.files.retain(|(n, _)| *n != name);
                Event::Ack
            },
            Op::Encrypt(pt) => Event::Data(pt),
            Op::Decrypt(ct) => Event::Data(ct),
            Op::Clip(text) => {
                sim.clipped.push(text);
                Event::Ack
            },
            Op::Ask(prompt) | Op::AskHidden(prompt) => {
                sim.printed.push(prompt);
                if sim.answers.is_empty() {
                    Event::Failed
                } else {
                    Event::Line(sim.answers.remove(0))
                }
            },
            Op::Done => return Ok(()),
            Op::Fail(e) => return Err(e.describe()),
        };
        let (next, out) = store.step(ev);
        store = next;
        step = out;
    }
}

fn conf() -> Config {
    Config {
        home: "/home/someone/.kip/passwords".to_string(),
        encrypt_command: "gpg --encrypt".to_string(),
        decrypt_command: "gpg --decrypt".to_string(),
        password_length: 19,
        password_choices: "abcdefghijklmnopqrstuvwxyz0123456789".to_string(),
    }
}

fn get_cmd(frag: &str) -> Command {
    Command::Get(GetData { filepart: frag.to_string(), print: Print(true) })
}

fn add_cmd(name: &str, username: Option<&str>, prompt: bool, notes: Option<&str>) -> Command {
    Command::Add(AddEditData {
        filepart: name.to_string(),
        username: username.map(|u| u.to_string()),
        print: Print(true),
        prompt: Prompt(prompt),
        notes: notes.map(|n| n.to_string()),
    })
}

#[test]
fn get_prints_username_password_and_notes() {
    let mut sim = Sim::new(vec![("ebay.com", "pw1\nuser1\nmy notes\n")], vec![]);
    run(conf(), get_cmd("ebay.com"), &mut sim).unwrap();
    assert_eq!(
        sim.printed,
        vec!["\u{1b}[1muser1\u{1b}[0m".to_string(), "pw1".to_string(), "my notes".to_string()]
    );
}

#[test]
fn get_without_print_sends_password_to_clipboard() {
    let mut sim = Sim::new(vec![("ebay.com", "pw1\nuser1\nnotes\n")], vec![]);
    let cmd = Command::Get(GetData { filepart: "ebay.com".to_string(), print: Print(false) });
    run(conf(), cmd, &mut sim).unwrap();
    assert_eq!(sim.clipped, vec!["pw1".to_string()]);
    assert!(sim.printed.contains(&"notes".to_string()));
    assert!(!sim.printed.contains(&"pw1".to_string()));
}

#[test]
fn get_on_fuzzy_match_announces_the_guess() {
    let mut sim = Sim::new(vec![("ebay.com", "pw\nu\nn\n")], vec![]);
    run(conf(), get_cmd("eba"), &mut sim).unwrap();
    assert_eq!(sim.printed[0], "Guessing \u{1b}[1mebay.com\u{1b}[0m");
}

#[test]
fn get_not_found_reports_and_succeeds() {
    let mut sim = Sim::new(vec![("ebay.com", "pw\nu\nn\n")], vec![]);
    run(conf(), get_cmd("zzz"), &mut sim).unwrap();
    assert_eq!(sim.printed, vec!["get failed: No match for: zzz".to_string()]);
}

#[test]
fn ambiguous_get_offers_a_menu_and_honours_the_choice() {
    let mut sim = Sim::new(
        vec![("ebay.com", "pw-e\nu-e\nn\n"), ("ebay-shop.com", "pw-s\nu-s\nn\n")],
        vec!["1"],
    );
    run(conf(), get_cmd("ebay"), &mut sim).unwrap();
    assert_eq!(sim.printed[0], "Did you mean:");
    assert_eq!(sim.printed[1], "0 - ebay-shop.com");
    assert_eq!(sim.printed[2], "1 - ebay.com");
    assert_eq!(sim.printed[3], "Select a choice ? ");
    assert!(sim.printed.contains(&"pw-e".to_string()));
}

#[test]
fn ambiguous_get_with_bad_answer_aborts() {
    let mut sim = Sim::new(
        vec![("ebay.com", "pw\nu\nn\n"), ("ebay-shop.com", "pw\nu\nn\n")],
        vec!["first"],
    );
    run(conf(), get_cmd("ebay"), &mut sim).unwrap();
    assert!(sim.printed.contains(&"get failed: Invalid selection: first".to_string()));
}

#[test]
fn add_denied_overwrite_leaves_file_bytes_unchanged() {
    let mut sim = Sim::new(vec![("acc", "oldpw\nolduser\noldnotes\n")], vec!["n"]);
    run(conf(), add_cmd("acc", Some("newuser"), false, None), &mut sim).unwrap();
    assert_eq!(sim.file("acc"), Some("oldpw\nolduser\noldnotes\n"));
    assert!(sim.printed.contains(&"Not overwriting".to_string()));
}

#[test]
fn add_confirmed_overwrite_replaces_the_file() {
    let mut sim = Sim::new(
        vec![("acc", "oldpw\nolduser\noldnotes\n")],
        vec!["y"],
    );
    run(conf(), add_cmd("acc", Some("newuser"), false, Some("new notes")), &mut sim).unwrap();
    let stored = sim.file("acc").unwrap().to_string();
    let e = kip::entry::decode(&stored).unwrap();
    assert_eq!(e.username, "newuser");
    assert_eq!(e.notes, "new notes");
    assert_eq!(e.password.chars().count(), 19);
}

#[test]
fn add_new_name_writes_without_confirmation_and_shows_it() {
    let mut sim = Sim::new(vec![], vec![]);
    run(conf(), add_cmd("fresh", Some("someone"), false, Some("remark")), &mut sim).unwrap();
    let stored = sim.file("fresh").unwrap().to_string();
    let e = kip::entry::decode(&stored).unwrap();
    assert_eq!(e.username, "someone");
    assert_eq!(e.notes, "remark");
    assert!(sim.printed.contains(&"\u{1b}[1msomeone\u{1b}[0m".to_string()));
    assert!(sim.printed.contains(&e.password));
}

#[test]
fn add_prompts_for_missing_username_and_typed_password() {
    let mut sim = Sim::new(vec![], vec!["  carol \n", "typed-secret"]);
    run(conf(), add_cmd("site", None, true, None), &mut sim).unwrap();
    assert_eq!(sim.printed[0], "Username: ");
    assert_eq!(sim.printed[1], "Password: ");
    assert_eq!(sim.file("site"), Some("typed-secret\ncarol\n\n"));
}

#[test]
fn edit_with_only_new_notes_preserves_password_and_username() {
    let mut sim = Sim::new(vec![("acc", "keeppw\nkeepuser\nold notes\n")], vec![]);
    let cmd = Command::Edit(AddEditData {
        filepart: "acc".to_string(),
        username: None,
        print: Print(true),
        prompt: Prompt(false),
        notes: Some("fresh notes".to_string()),
    });
    run(conf(), cmd, &mut sim).unwrap();
    let e = kip::entry::decode(sim.file("acc").unwrap()).unwrap();
    assert_eq!(e.password, "keeppw");
    assert_eq!(e.username, "keepuser");
    assert_eq!(e.notes, "fresh notes");
}

#[test]
fn edit_overwrites_without_asking() {
    let mut sim = Sim::new(vec![("acc", "pw\nuser\nnotes\n")], vec![]);
    let cmd = Command::Edit(AddEditData {
        filepart: "acc".to_string(),
        username: Some("renamed".to_string()),
        print: Print(true),
        prompt: Prompt(false),
        notes: None,
    });
    run(conf(), cmd, &mut sim).unwrap();
    let e = kip::entry::decode(sim.file("acc").unwrap()).unwrap();
    assert_eq!(e.username, "renamed");
    assert_eq!(e.password, "pw");
    assert!(!sim.printed.contains(&"Overwrite name? [y|N]".to_string()));
}

#[test]
fn edit_of_unknown_name_fails() {
    let mut sim = Sim::new(vec![], vec![]);
    let cmd = Command::Edit(AddEditData {
        filepart: "ghost".to_string(),
        username: None,
        print: Print(true),
        prompt: Prompt(false),
        notes: Some("x".to_string()),
    });
    let r = run(conf(), cmd, &mut sim);
    assert_eq!(r, Err("No match for: ghost".to_string()));
}

#[test]
fn del_denied_keeps_the_file() {
    let mut sim = Sim::new(vec![("acc", "pw\nu\nn\n")], vec!["n"]);
    run(conf(), Command::Del { filepart: "acc".to_string() }, &mut sim).unwrap();
    assert!(sim.file("acc").is_some());
    assert!(sim.printed.contains(&"Not deleted".to_string()));
}

#[test]
fn del_confirmed_removes_the_file_and_later_lookup_fails() {
    let mut sim = Sim::new(vec![("acc", "pw\nu\nn\n")], vec!["y"]);
    run(conf(), Command::Del { filepart: "acc".to_string() }, &mut sim).unwrap();
    assert!(sim.file("acc").is_none());
    let mut sim2 = Sim::new(vec![], vec![]);
    run(conf(), get_cmd("acc"), &mut sim2).unwrap();
    assert_eq!(sim2.printed, vec!["get failed: No match for: acc".to_string()]);
}

#[test]
fn del_asks_with_the_full_path() {
    let mut sim = Sim::new(vec![("acc", "pw\nu\nn\n")], vec!["n"]);
    run(conf(), Command::Del { filepart: "acc".to_string() }, &mut sim).unwrap();
    assert_eq!(sim.printed[0], "Delete /home/someone/.kip/passwords/acc? [y|N] ");
}

#[test]
fn gen_prints_and_copies_the_password() {
    let mut sim = Sim::new(vec![], vec![]);
    run(conf(), Command::Gen, &mut sim).unwrap();
    assert_eq!(sim.clipped.len(), 1);
    assert_eq!(sim.printed.len(), 1);
    assert_eq!(sim.clipped[0], sim.printed[0]);
    assert_eq!(sim.printed[0].chars().count(), 19);
}

#[test]
fn list_prints_matching_names_sorted() {
    let mut sim = Sim::new(
        vec![("ebay.com", "x"), ("amazon.com", "x"), ("ebay-shop.com", "x")],
        vec![],
    );
    run(conf(), Command::List { filepart: Some("ebay".to_string()) }, &mut sim).unwrap();
    assert_eq!(
        sim.printed,
        vec![
            "Listing \u{1b}[1m/home/someone/.kip/passwords/ebay*\u{1b}[0m:".to_string(),
            "ebay-shop.com".to_string(),
            "ebay.com".to_string(),
        ]
    );
}

#[test]
fn list_without_prefix_prints_everything_sorted() {
    let mut sim = Sim::new(vec![("b", "x"), ("a", "x")], vec![]);
    run(conf(), Command::List { filepart: None }, &mut sim).unwrap();
    assert_eq!(sim.printed[1..], ["a".to_string(), "b".to_string()]);
}

#[test]
fn list_with_no_match_says_so() {
    let mut sim = Sim::new(vec![("b", "x")], vec![]);
    run(conf(), Command::List { filepart: Some("zz".to_string()) }, &mut sim).unwrap();
    assert_eq!(sim.printed[1], "No matches");
}

#[test]
fn error_messages_name_the_failure() {
    let mut sim = Sim::new(vec![("acc", "no newline here")], vec![]);
    let r = run(conf(), get_cmd("acc"), &mut sim);
    assert_eq!(r, Err("Malformed entry".to_string()));
}

// Driving the machine by hand to reach the failure reports for actions the
// environment could not perform.

#[test]
fn failed_read_is_a_file_error() {
    let (store, _step) = Store::start(conf(), get_cmd("acc"));
    let (store, _step) = store.step(Event::Listing(vec!["acc".to_string()]));
    let (_store, step) = store.step(Event::Failed);
    match step.op {
        Op::Fail(e) => assert_eq!(e.describe(), "File error"),
        _ => panic!("expected a failure"),
    }
}

#[test]
fn failed_decrypt_is_a_cipher_failure() {
    let (store, _step) = Store::start(conf(), get_cmd("acc"));
    let (store, _step) = store.step(Event::Listing(vec!["acc".to_string()]));
    let (store, _step) = store.step(Event::Data("ciphertext".to_string()));
    let (_store, step) = store.step(Event::Failed);
    match step.op {
        Op::Fail(e) => assert_eq!(e.describe(), "Cipher command failed"),
        _ => panic!("expected a failure"),
    }
}

#[test]
fn failed_clip_is_a_clipboard_failure() {
    let (store, _step) = Store::start(conf(), Command::Gen);
    let (_store, step) = store.step(Event::Failed);
    match step.op {
        Op::Fail(e) => assert_eq!(e.describe(), "Clipboard command failed"),
        _ => panic!("expected a failure"),
    }
}
