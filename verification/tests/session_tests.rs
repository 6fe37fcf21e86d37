use mrpack_install::install::{Install, SkipReason};
use mrpack_install::manifest::{Applicability, ManifestError, ModEntry};
use mrpack_install::session::{judge, Command, Directive, Event, Outcome, Phase, Session};

const ALPHA: &str = "ba3ce58667ca9b12b3c0cdcc4da57f9962aeca7065c43a7d9c027332fdb9f0bbcf69004286880fe3d8f3fd8f03ddffd7485fd94c9d3a38618ea10691d8d6a7fa";
const BETA: &str = "560c72de72c0a5222d928237f6b105296da059853534b8d01fc23527c1d5d8a4b83d5b1dd3f2210642bd071cc500598d4ebd293973d9f4aeb8ae7336af3a959d";
const GAMMA: &str = "833c636f43988a6711e1d39b52553da0f63c58b18e8ac7a48f192372c3558e2e5a0632511b78223251cd57748f7fb5ec5a6bcc1835fa2261e82a36819c6649db";

fn file(server: &str, path: &str, digest: &str, url: &str) -> String {
    format!(
        "{{\"path\": \"{}\", \"hashes\": {{\"sha512\": \"{}\"}}, \"env\": {{\"server\": \"{}\"}}, \
         \"downloads\": [\"{}\"]}}",
        path, digest, server, url
    )
}

fn manifest(files: &[String]) -> Vec<u8> {
    format!("{{\"files\": [{}]}}", files.join(", ")).into_bytes()
}

fn three_entries() -> Vec<u8> {
    manifest(&[
        file("required", "mods/alpha.jar", ALPHA, "https://cdn.example/alpha"),
        file("optional", "mods/beta.jar", BETA, "https://cdn.example/beta"),
        file("required", "config/gamma.toml", GAMMA, "https://cdn.example/gamma"),
    ])
}

fn fetch(url: &str) -> Command {
    Command::Fetch { url: String::from(url) }
}

fn install(root: &str, directory: &str, path: &str, bytes: &[u8]) -> Outcome {
    Outcome::Install(Install {
        relative_path: String::from(path),
        directory: format!("{}/{}", root, directory),
        target: format!("{}/{}", root, path),
        bytes: bytes.to_vec(),
    })
}

/// Runs a session to its end the way a program would, with `download`
/// standing for the network, and returns what was written and reported.
fn drive(
    session: &mut Session,
    answer: bool,
    download: &dyn Fn(&str) -> Vec<u8>,
) -> (Vec<(String, Vec<u8>)>, Vec<String>, Vec<String>, bool) {
    let mut written = Vec::new();
    let mut skipped = Vec::new();
    let mut fetched = Vec::new();
    let mut command = session.pending();
    loop {
        let event = match command {
            Command::Ask { .. } => Event::Answer(answer),
            Command::Fetch { url } => {
                let body = download(&url);
                fetched.push(url);
                Event::Body(body)
            }
            Command::Complete => return (written, skipped, fetched, true),
            Command::Quit => return (written, skipped, fetched, false),
        };
        let directive = session.step(event);
        match directive.outcome {
            Outcome::Install(install) => written.push((install.target, install.bytes)),
            Outcome::Skip { relative_path, .. } => skipped.push(relative_path),
            Outcome::Nothing => {}
        }
        command = directive.command;
    }
}

fn mock(url: &str) -> Vec<u8> {
    match url {
        "https://cdn.example/alpha" => b"alpha".to_vec(),
        "https://cdn.example/beta" => b"beta".to_vec(),
        "https://cdn.example/gamma" => b"gamma".to_vec(),
        _ => b"unknown".to_vec(),
    }
}

#[test]
fn three_entries_two_required_all_digests_match() {
    let mut session = Session::open(String::from("/srv/mc"), three_entries()).unwrap();
    let (written, skipped, fetched, completed) = drive(&mut session, true, &mock);
    assert_eq!(
        written,
        vec![
            (String::from("/srv/mc/mods/alpha.jar"), b"alpha".to_vec()),
            (String::from("/srv/mc/config/gamma.toml"), b"gamma".to_vec()),
        ]
    );
    assert_eq!(skipped, Vec::<String>::new());
    assert_eq!(fetched, vec!["https://cdn.example/alpha", "https://cdn.example/gamma"]);
    assert!(completed);
    assert_eq!(session.phase(), Phase::Completed);
}

#[test]
fn one_required_entry_with_another_digest_is_skipped() {
    let bytes = manifest(&[file("required", "mods/alpha.jar", BETA, "https://cdn.example/alpha")]);
    let mut session = Session::open(String::from("/srv/mc"), bytes).unwrap();
    let (written, skipped, fetched, completed) = drive(&mut session, true, &mock);
    assert_eq!(written, Vec::<(String, Vec<u8>)>::new());
    assert_eq!(skipped, vec!["mods/alpha.jar"]);
    assert_eq!(fetched, vec!["https://cdn.example/alpha"]);
    assert!(completed);
}

#[test]
fn declined_confirmation_fetches_and_writes_nothing() {
    let mut session = Session::open(String::from("/srv/mc"), three_entries()).unwrap();
    let (written, skipped, fetched, completed) = drive(&mut session, false, &mock);
    assert_eq!(written, Vec::<(String, Vec<u8>)>::new());
    assert_eq!(skipped, Vec::<String>::new());
    assert_eq!(fetched, Vec::<String>::new());
    assert!(!completed);
    assert_eq!(session.phase(), Phase::Declined);
}

#[test]
fn session_steps_one_by_one() {
    let mut session = Session::open(String::from("/srv/mc"), three_entries()).unwrap();
    assert_eq!(session.phase(), Phase::Confirming);
    assert_eq!(session.pending(), Command::Ask { count: 2, root: String::from("/srv/mc") });
    assert_eq!(
        session.step(Event::Answer(true)),
        Directive { outcome: Outcome::Nothing, command: fetch("https://cdn.example/alpha") }
    );
    assert_eq!(session.phase(), Phase::Fetching);
    assert_eq!(
        session.step(Event::Body(b"alpha".to_vec())),
        Directive {
            outcome: install("/srv/mc", "mods", "mods/alpha.jar", b"alpha"),
            command: fetch("https://cdn.example/gamma"),
        }
    );
    assert_eq!(session.pending(), fetch("https://cdn.example/gamma"));
    assert_eq!(
        session.step(Event::Body(b"gamma".to_vec())),
        Directive {
            outcome: install("/srv/mc", "config", "config/gamma.toml", b"gamma"),
            command: Command::Complete,
        }
    );
    assert_eq!(session.phase(), Phase::Completed);
    assert_eq!(session.pending(), Command::Complete);
}

#[test]
fn a_skip_does_not_stop_the_run() {
    let mut session = Session::open(String::from("/srv/mc"), three_entries()).unwrap();
    session.step(Event::Answer(true));
    assert_eq!(
        session.step(Event::Body(b"tampered".to_vec())),
        Directive {
            outcome: Outcome::Skip {
                relative_path: String::from("mods/alpha.jar"),
                reason: SkipReason::HashMismatch,
            },
            command: fetch("https://cdn.example/gamma"),
        }
    );
    assert_eq!(
        session.step(Event::Body(b"gamma".to_vec())),
        Directive {
            outcome: install("/srv/mc", "config", "config/gamma.toml", b"gamma"),
            command: Command::Complete,
        }
    );
}

#[test]
fn bodies_are_judged_against_the_entry_in_turn() {
    let mut session = Session::open(String::from("/srv/mc"), three_entries()).unwrap();
    session.step(Event::Answer(true));
    let first = session.step(Event::Body(b"gamma".to_vec()));
    assert_eq!(
        first.outcome,
        Outcome::Skip {
            relative_path: String::from("mods/alpha.jar"),
            reason: SkipReason::HashMismatch,
        }
    );
    let second = session.step(Event::Body(b"alpha".to_vec()));
    assert_eq!(
        second.outcome,
        Outcome::Skip {
            relative_path: String::from("config/gamma.toml"),
            reason: SkipReason::HashMismatch,
        }
    );
    assert_eq!(second.command, Command::Complete);
}

#[test]
fn events_that_do_not_count_change_nothing() {
    let mut session = Session::open(String::from("/srv/mc"), three_entries()).unwrap();
    let ask = Command::Ask { count: 2, root: String::from("/srv/mc") };
    assert_eq!(
        session.step(Event::Body(b"alpha".to_vec())),
        Directive { outcome: Outcome::Nothing, command: ask }
    );
    assert_eq!(session.phase(), Phase::Confirming);
    session.step(Event::Answer(true));
    assert_eq!(
        session.step(Event::Answer(false)),
        Directive { outcome: Outcome::Nothing, command: fetch("https://cdn.example/alpha") }
    );
    assert_eq!(session.phase(), Phase::Fetching);
    session.step(Event::Body(b"alpha".to_vec()));
    session.step(Event::Body(b"gamma".to_vec()));
    assert_eq!(
        session.step(Event::Body(b"gamma".to_vec())),
        Directive { outcome: Outcome::Nothing, command: Command::Complete }
    );
    assert_eq!(
        session.step(Event::Answer(true)),
        Directive { outcome: Outcome::Nothing, command: Command::Complete }
    );
}

#[test]
fn a_declined_session_stays_declined() {
    let mut session = Session::open(String::from("/srv/mc"), three_entries()).unwrap();
    assert_eq!(
        session.step(Event::Answer(false)),
        Directive { outcome: Outcome::Nothing, command: Command::Quit }
    );
    assert_eq!(
        session.step(Event::Answer(true)),
        Directive { outcome: Outcome::Nothing, command: Command::Quit }
    );
    assert_eq!(
        session.step(Event::Body(b"alpha".to_vec())),
        Directive { outcome: Outcome::Nothing, command: Command::Quit }
    );
    assert_eq!(session.phase(), Phase::Declined);
}

#[test]
fn a_session_without_entries_completes_on_confirmation() {
    let mut session = Session::new(String::from("/srv/mc"), Vec::new());
    assert_eq!(session.pending(), Command::Ask { count: 0, root: String::from("/srv/mc") });
    assert_eq!(
        session.step(Event::Answer(true)),
        Directive { outcome: Outcome::Nothing, command: Command::Complete }
    );
    let bytes = manifest(&[file("optional", "mods/beta.jar", BETA, "https://cdn.example/beta")]);
    let mut session = Session::open(String::from("/srv/mc"), bytes).unwrap();
    let (written, skipped, fetched, completed) = drive(&mut session, true, &mock);
    assert!(written.is_empty() && skipped.is_empty() && fetched.is_empty() && completed);
}

#[test]
fn a_repeated_entry_is_installed_each_time_with_the_same_content() {
    let bytes = manifest(&[
        file("required", "mods/alpha.jar", ALPHA, "https://cdn.example/alpha"),
        file("required", "mods/alpha.jar", ALPHA, "https://cdn.example/alpha"),
    ]);
    let mut session = Session::open(String::from("/srv/mc"), bytes).unwrap();
    let (written, _, fetched, _) = drive(&mut session, true, &mock);
    assert_eq!(fetched.len(), 2);
    assert_eq!(written.len(), 2);
    assert_eq!(written[0], written[1]);
    assert_eq!(written[0], (String::from("/srv/mc/mods/alpha.jar"), b"alpha".to_vec()));
}

#[test]
fn opening_a_session_reports_a_rejected_manifest() {
    let open = |bytes: Vec<u8>| Session::open(String::from("/srv/mc"), bytes).err();
    assert_eq!(open(vec![0xff]), Some(ManifestError::NotText));
    assert_eq!(open(b"{".to_vec()), Some(ManifestError::Syntax));
    assert_eq!(
        open(manifest(&[
            file("optional", "a", ALPHA, "u"),
            file("optional", "../b", BETA, "u"),
        ])),
        Some(ManifestError::Entry {
            index: 1,
            fault: mrpack_install::manifest::EntryFault::UnsafePath
        })
    );
}

#[test]
fn judge_installs_or_skips() {
    let entry = ModEntry::new(
        String::from("mods/alpha.jar"),
        ALPHA.to_uppercase(),
        String::from("https://cdn.example/alpha"),
        Applicability::Required,
    )
    .unwrap();
    assert_eq!(
        judge("/srv/mc", &entry, b"alpha".to_vec()),
        install("/srv/mc", "mods", "mods/alpha.jar", b"alpha")
    );
    assert_eq!(
        judge("/srv/mc", &entry, b"Alpha".to_vec()),
        Outcome::Skip {
            relative_path: String::from("mods/alpha.jar"),
            reason: SkipReason::HashMismatch,
        }
    );
}

#[test]
fn plan_a_session_from_a_document() {
    let doc = mrpack_install::manifest::read_document(three_entries()).unwrap();
    let mut session = Session::plan(String::from("/srv/mc"), &doc).unwrap();
    assert_eq!(session.pending(), Command::Ask { count: 2, root: String::from("/srv/mc") });
    let (written, _, fetched, completed) = drive(&mut session, true, &mock);
    assert_eq!(fetched, vec!["https://cdn.example/alpha", "https://cdn.example/gamma"]);
    assert_eq!(written.len(), 2);
    assert!(completed);
    let bad = mrpack_install::manifest::read_document(b"{\"files\": [null]}".to_vec()).unwrap();
    assert_eq!(
        Session::plan(String::from("/srv/mc"), &bad).err(),
        Some(ManifestError::Entry {
            index: 0,
            fault: mrpack_install::manifest::EntryFault::Missing(
                mrpack_install::manifest::Field::Server
            )
        })
    );
}
