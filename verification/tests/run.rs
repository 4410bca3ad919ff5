use dumpsta::cli::Args;
use dumpsta::dialog::Dialog;
use dumpsta::disp::{Disp, ErrorText};
use dumpsta::fetch::{
    file_name_of, Action, Event, FetchOutcome, Orchestrator, Stage, Step, THROTTLE_SECONDS,
};
use dumpsta::plan::{find_dependents, plan, FetchTarget, LocalCrates, PackageRecord};
use dumpsta::report::{
    downloaded, downloading, dry_run_finished, failed, failure_message, fetching, found, planned,
    pull_failures, scanning, target, Notice,
};
use dumpsta::style::Color;

fn plain() {
    colored::control::set_override(false);
}

fn cause(message: &str) -> ErrorText {
    ErrorText { message: String::from(message), detail: format!("Error({:?})", message) }
}

fn targets(urls: &[&str]) -> Vec<FetchTarget> {
    urls.iter().map(|u| FetchTarget { url: String::from(*u) }).collect()
}

fn run_of(urls: &[&str], dry_run: bool) -> Orchestrator {
    Orchestrator::new(
        targets(urls),
        String::from("/reg/cache/idx"),
        String::from("/reg/src/idx"),
        THROTTLE_SECONDS,
        dry_run,
    )
}

fn shown(notice: Option<Notice>) -> Option<String> {
    notice.map(|n| n.render().unwrap())
}

const A: &str = "https://crates.test/dl/a/1.0.0/download";
const A_FINAL: &str = "https://static.test/crates/a/a-1.0.0.crate";
const B: &str = "https://crates.test/dl/b/2.0.0/download";
const B_FINAL: &str = "https://static.test/crates/b/b-2.0.0.crate";

#[test]
fn file_name_is_what_follows_the_last_slash() {
    assert_eq!(file_name_of(A_FINAL), Some(String::from("a-1.0.0.crate")));
    assert_eq!(file_name_of("a/b/"), Some(String::new()));
    assert_eq!(file_name_of("/"), Some(String::new()));
    assert_eq!(file_name_of("/x"), Some(String::from("x")));
    assert_eq!(file_name_of("no slash"), None);
    assert_eq!(file_name_of(""), None);
    assert_eq!(file_name_of("\u{e9}/\u{fc}"), Some(String::from("\u{fc}")));
}

#[test]
fn steps_fail_at_their_stages() {
    assert_eq!(Step::Fetch.stage(), Stage::Network);
    assert_eq!(Step::Create.stage(), Stage::FileCreate);
    assert_eq!(Step::Write.stage(), Stage::FileWrite);
    assert_eq!(Step::Open.stage(), Stage::FileOpen);
    assert_eq!(Step::Unpack.stage(), Stage::Extract);
}

#[test]
fn a_target_goes_through_every_step() {
    plain();
    let mut run = run_of(&[A], false);
    assert!(!run.is_finished());
    assert_eq!(run.next_action(), Action::Sleep { seconds: 1 });
    assert_eq!(
        shown(run.advance(Event::Slept)),
        Some(format!("-> Downloading {}...", A))
    );
    assert_eq!(run.next_action(), Action::Get { url: String::from(A) });
    assert_eq!(run.advance(Event::Response { url: String::from(A_FINAL) }), None);
    let path = String::from("/reg/cache/idx/a-1.0.0.crate");
    assert_eq!(run.next_action(), Action::CreateFile { path: path.clone() });
    assert_eq!(run.advance(Event::Created), None);
    assert_eq!(run.next_action(), Action::WriteBody { path: path.clone() });
    assert_eq!(run.advance(Event::Written), None);
    assert_eq!(run.next_action(), Action::OpenFile { path: path.clone() });
    assert_eq!(run.advance(Event::Opened), None);
    assert_eq!(
        run.next_action(),
        Action::Unpack { path: path.clone(), into: String::from("/reg/src/idx") }
    );
    assert_eq!(
        shown(run.advance(Event::Unpacked)),
        Some(String::from("  -> Downloaded and extracted a-1.0.0.crate"))
    );
    assert!(run.is_finished());
    assert_eq!(run.next_action(), Action::Finish);
    assert_eq!(
        run.outcomes(),
        &vec![FetchOutcome::Downloaded { file_name: String::from("a-1.0.0.crate") }]
    );
    assert_eq!(run.failures(), 0);
    assert_eq!(run.summary(), None);
}

fn fail_at(stage: Stage) -> (Orchestrator, Option<String>) {
    let mut run = run_of(&[A, B], false);
    run.advance(Event::Slept);
    let steps = [
        (Stage::Network, Event::Response { url: String::from(A_FINAL) }),
        (Stage::FileCreate, Event::Created),
        (Stage::FileWrite, Event::Written),
        (Stage::FileOpen, Event::Opened),
        (Stage::Extract, Event::Unpacked),
    ];
    for (at, ok) in steps {
        if at == stage {
            let notice = run.advance(Event::Failed { cause: cause("boom") });
            return (run, shown(notice));
        }
        run.advance(ok);
    }
    unreachable!()
}

#[test]
fn failure_at_each_stage_is_recorded_and_the_next_target_begins() {
    plain();
    let path = "/reg/cache/idx/a-1.0.0.crate";
    let cases = [
        (Stage::Network, format!("  -> Error downloading file: {}, Err: boom", A)),
        (Stage::FileCreate, format!("  -> Failed creating file: {}, Err: boom", path)),
        (Stage::FileWrite, String::from("  -> Failed downloading file: a-1.0.0.crate, Err: boom")),
        (Stage::FileOpen, format!("  -> Failed opening file: {}, Err: boom", path)),
        (Stage::Extract, format!("  -> Failed extracting file: {}, Err: boom", path)),
    ];
    for (stage, line) in cases {
        let (mut run, notice) = fail_at(stage);
        assert_eq!(notice, Some(line));
        assert_eq!(run.outcomes(), &vec![FetchOutcome::Failed { stage, cause: cause("boom") }]);
        assert_eq!(run.failures(), 1);
        assert!(!run.is_finished());
        assert_eq!(run.next_action(), Action::Sleep { seconds: 1 });
        run.advance(Event::Slept);
        assert_eq!(run.next_action(), Action::Get { url: String::from(B) });
    }
}

fn succeed(run: &mut Orchestrator, final_url: &str) {
    run.advance(Event::Slept);
    run.advance(Event::Response { url: String::from(final_url) });
    run.advance(Event::Created);
    run.advance(Event::Written);
    run.advance(Event::Opened);
    run.advance(Event::Unpacked);
}

#[test]
fn earlier_outcomes_stay_when_a_later_target_fails() {
    plain();
    let mut run = run_of(&[A, B, A], false);
    succeed(&mut run, A_FINAL);
    let first = run.outcomes().clone();
    run.advance(Event::Slept);
    run.advance(Event::Response { url: String::from(B_FINAL) });
    run.advance(Event::Created);
    run.advance(Event::Failed { cause: cause("disk full") });
    assert_eq!(run.outcomes()[..1], first[..]);
    assert_eq!(
        run.outcomes()[1],
        FetchOutcome::Failed { stage: Stage::FileWrite, cause: cause("disk full") }
    );
    succeed(&mut run, A_FINAL);
    assert!(run.is_finished());
    assert_eq!(run.outcomes().len(), 3);
    assert_eq!(run.failures(), 1);
    assert_eq!(shown(run.summary()), Some(String::from("-> Failed pulling 1 crates")));
}

#[test]
fn three_dependents_one_local_one_failing() {
    plain();
    let record = |name: &str, version: &str| PackageRecord {
        name: String::from(name),
        version: String::from(version),
        dependencies: vec![String::from("insta")],
    };
    let index = vec![record("a", "1.0.0"), record("b", "2.0.0"), record("c", "3.0.0")];
    let inventory = LocalCrates::new(vec![Some(String::from("c-3.0.0"))]);
    let found = find_dependents(index, target());
    assert_eq!(found.len(), 3);
    let planned = plan(&found, &inventory, "https://crates.test/dl");
    assert_eq!(
        planned,
        vec![FetchTarget { url: String::from(A) }, FetchTarget { url: String::from(B) }]
    );
    let mut run = Orchestrator::new(
        planned,
        String::from("/reg/cache/idx"),
        String::from("/reg/src/idx"),
        THROTTLE_SECONDS,
        false,
    );
    run.advance(Event::Slept);
    run.advance(Event::Failed { cause: cause("timed out") });
    succeed(&mut run, B_FINAL);
    assert!(run.is_finished());
    assert_eq!(run.failures(), 1);
    assert_eq!(
        run.outcomes(),
        &vec![
            FetchOutcome::Failed { stage: Stage::Network, cause: cause("timed out") },
            FetchOutcome::Downloaded { file_name: String::from("b-2.0.0.crate") },
        ]
    );
    assert_eq!(shown(run.summary()), Some(String::from("-> Failed pulling 1 crates")));
}

#[test]
fn every_request_follows_a_wait() {
    plain();
    let mut run = run_of(&[A, B, A], false);
    let mut actions = vec![run.next_action()];
    let mut round = 0;
    while !run.is_finished() {
        let event = match actions.last().unwrap() {
            Action::Sleep { .. } => Event::Slept,
            Action::Get { .. } => {
                round += 1;
                if round == 2 {
                    Event::Failed { cause: cause("refused") }
                } else {
                    Event::Response { url: String::from(A_FINAL) }
                }
            }
            Action::CreateFile { .. } => Event::Created,
            Action::WriteBody { .. } => Event::Written,
            Action::OpenFile { .. } => Event::Opened,
            Action::Unpack { .. } => Event::Unpacked,
            Action::Finish => unreachable!(),
        };
        run.advance(event);
        actions.push(run.next_action());
    }
    let mut requested = Vec::new();
    for (k, action) in actions.iter().enumerate() {
        if let Action::Get { url } = action {
            requested.push(url.as_str());
            assert!(k > 0);
            assert_eq!(actions[k - 1], Action::Sleep { seconds: THROTTLE_SECONDS });
        }
    }
    assert_eq!(requested, vec![A, B, A]);
    assert_eq!(actions.last(), Some(&Action::Finish));
    assert_eq!(THROTTLE_SECONDS, 1);
}

#[test]
fn dry_run_asks_for_nothing() {
    plain();
    let args = Args { dry_run: true, threads: 0 };
    let mut run = run_of(&[A, B], args.dry_run);
    assert!(run.is_finished());
    assert_eq!(run.next_action(), Action::Finish);
    let before = run.clone();
    for event in [
        Event::Slept,
        Event::Response { url: String::from(A_FINAL) },
        Event::Created,
        Event::Written,
        Event::Opened,
        Event::Unpacked,
        Event::Failed { cause: cause("x") },
    ] {
        assert_eq!(run.advance(event), None);
        assert_eq!(run.next_action(), Action::Finish);
    }
    assert_eq!(run, before);
    assert!(run.outcomes().is_empty());
    assert_eq!(run.summary(), None);
}

#[test]
fn an_event_that_was_not_asked_for_changes_nothing() {
    plain();
    let mut run = run_of(&[A], false);
    let before = run.clone();
    for event in [
        Event::Response { url: String::from(A_FINAL) },
        Event::Created,
        Event::Written,
        Event::Opened,
        Event::Unpacked,
        Event::Failed { cause: cause("x") },
    ] {
        assert_eq!(run.advance(event), None);
        assert_eq!(run, before);
    }
    run.advance(Event::Slept);
    let waiting = run.clone();
    for event in [Event::Slept, Event::Created, Event::Written, Event::Opened, Event::Unpacked] {
        assert_eq!(run.advance(event), None);
        assert_eq!(run, waiting);
    }
    let mut done = run_of(&[], false);
    assert!(done.is_finished());
    assert_eq!(done.advance(Event::Slept), None);
    assert_eq!(done.next_action(), Action::Finish);
}

#[test]
fn notices_of_the_stages() {
    plain();
    assert_eq!(target(), "insta");
    assert_eq!(found(12).render(), Some(String::from("-> Found 12 crates using `insta`!")));
    assert_eq!(scanning().render(), Some(String::from("Scanning locally downloaded crates...")));
    assert_eq!(planned(0).render(), Some(String::from("-> No crates to download!")));
    assert_eq!(planned(1).render(), Some(String::from("-> 1 crates to download")));
    assert_eq!(planned(25).render(), Some(String::from("-> 25 crates to download")));
    assert_eq!(dry_run_finished().render(), Some(String::from("Finished dry run!")));
    assert_eq!(downloading().render(), Some(String::from("Downloading crates...")));
    let top = Dialog::raw_with_indent(1);
    let beneath = top.sub_dialog();
    assert_eq!(
        fetching(&top, &String::from("u")).render(),
        Some(String::from("-> Downloading u..."))
    );
    assert_eq!(
        downloaded(&beneath, &String::from("f.crate")).render(),
        Some(String::from("  -> Downloaded and extracted f.crate"))
    );
    assert_eq!(pull_failures(&top, 0), None);
    assert_eq!(
        shown(pull_failures(&top, 3)),
        Some(String::from("-> Failed pulling 3 crates"))
    );
}

#[test]
fn failure_notices_name_what_failed() {
    plain();
    let beneath = Dialog::raw_with_indent(2);
    let url = String::from("U");
    let path = String::from("P");
    let file = String::from("F");
    let cases = [
        (Stage::Network, "Error downloading file: {}, Err: {}", Disp::text("U")),
        (Stage::FileCreate, "Failed creating file: {}, Err: {}", Disp::path("P")),
        (Stage::FileWrite, "Failed downloading file: {}, Err: {}", Disp::text("F")),
        (Stage::FileOpen, "Failed opening file: {}, Err: {}", Disp::path("P")),
        (Stage::Extract, "Failed extracting file: {}, Err: {}", Disp::path("P")),
    ];
    for (stage, template, subject) in cases {
        assert_eq!(failure_message(stage), template);
        let notice = failed(&beneath, stage, &url, &path, &file, &cause("c"));
        assert_eq!(
            notice,
            Notice::Line {
                dialog: beneath,
                color: Color::Magenta,
                template: String::from(template),
                values: vec![subject, Disp::Error(cause("c"))],
            }
        );
    }
}

#[test]
fn a_notice_that_does_not_fit_has_no_line() {
    plain();
    let notice = Notice::Headline { template: String::from("{}"), values: Vec::new() };
    assert_eq!(notice.render(), None);
    let notice = Notice::Line {
        dialog: Dialog::raw_with_indent(1),
        color: Color::Blue,
        template: String::from("{"),
        values: Vec::new(),
    };
    assert_eq!(notice.render(), None);
}
