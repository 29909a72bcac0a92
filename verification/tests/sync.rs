use weave::resolver::DepResolver;
use weave::sync::{clone_report, SyncReply, SyncRequest, Synchronizer, UpdateOutcome};

fn names(list: &[&str]) -> Vec<String> {
    list.iter().map(|n| n.to_string()).collect()
}

fn updated(name: &str) -> UpdateOutcome {
    UpdateOutcome::Updated { name: name.to_string() }
}

fn skipped(name: &str) -> UpdateOutcome {
    UpdateOutcome::UpdateSkipped { name: name.to_string() }
}

fn feed(session: &mut Synchronizer, replies: &[SyncReply]) {
    for reply in replies {
        session.reply(*reply);
    }
}

#[test]
fn directory_without_repository_is_skipped_and_the_rest_updated() {
    let resolver = DepResolver::new("");
    let mut session = resolver.update_lib(names(&["one", "two", "three"]));
    let mut opened = Vec::new();
    loop {
        match session.request() {
            SyncRequest::Finished { report } => {
                assert_eq!(report, vec![updated("one"), skipped("two"), updated("three")]);
                break;
            }
            SyncRequest::Open { name } => {
                let reply = if name == "two" { SyncReply::NotRepository } else { SyncReply::Opened };
                opened.push(name);
                session.reply(reply);
            }
            SyncRequest::Stash { .. } => session.reply(SyncReply::Clean),
            SyncRequest::Pull { .. } => session.reply(SyncReply::Pulled),
            SyncRequest::Reapply { .. } => unreachable!(),
        }
    }
    assert_eq!(opened, names(&["one", "two", "three"]));
}

#[test]
fn stash_is_applied_again_after_the_pull() {
    let mut session = Synchronizer::begin(names(&["lib"]));
    assert_eq!(session.request(), SyncRequest::Open { name: "lib".to_string() });
    session.reply(SyncReply::Opened);
    assert_eq!(session.request(), SyncRequest::Stash { name: "lib".to_string() });
    session.reply(SyncReply::Stashed);
    assert_eq!(session.request(), SyncRequest::Pull { name: "lib".to_string() });
    session.reply(SyncReply::Pulled);
    assert_eq!(session.request(), SyncRequest::Reapply { name: "lib".to_string() });
    assert!(!session.is_finished());
    session.reply(SyncReply::Reapplied);
    assert!(session.is_finished());
    assert_eq!(session.request(), SyncRequest::Finished { report: vec![updated("lib")] });
}

#[test]
fn clean_tree_is_pulled_without_reapply() {
    let mut session = Synchronizer::begin(names(&["lib"]));
    feed(&mut session, &[SyncReply::Opened, SyncReply::Clean]);
    assert_eq!(session.request(), SyncRequest::Pull { name: "lib".to_string() });
    session.reply(SyncReply::Pulled);
    assert_eq!(session.request(), SyncRequest::Finished { report: vec![updated("lib")] });
}

#[test]
fn conflict_is_recorded_and_the_next_library_handled() {
    let mut session = Synchronizer::begin(names(&["a", "b"]));
    feed(
        &mut session,
        &[SyncReply::Opened, SyncReply::Stashed, SyncReply::Pulled, SyncReply::Conflict],
    );
    assert_eq!(session.request(), SyncRequest::Open { name: "b".to_string() });
    feed(&mut session, &[SyncReply::Opened, SyncReply::Clean, SyncReply::Pulled]);
    assert_eq!(
        session.request(),
        SyncRequest::Finished {
            report: vec![UpdateOutcome::StashReapplyConflict { name: "a".to_string() }, updated("b")],
        }
    );
}

#[test]
fn entry_that_is_no_directory_leaves_no_record() {
    let mut session = Synchronizer::begin(names(&["tmp.tar.gz", "lib", "notes.txt"]));
    feed(
        &mut session,
        &[
            SyncReply::NotDirectory,
            SyncReply::Opened,
            SyncReply::Clean,
            SyncReply::Pulled,
            SyncReply::NotDirectory,
        ],
    );
    assert_eq!(session.request(), SyncRequest::Finished { report: vec![updated("lib")] });
}

#[test]
fn update_of_an_empty_directory_is_finished_at_once() {
    let session = Synchronizer::begin(Vec::new());
    assert!(session.is_finished());
    assert_eq!(session.request(), SyncRequest::Finished { report: vec![] });
}

#[test]
fn sync_reply_that_does_not_answer_is_ignored() {
    let mut session = Synchronizer::begin(names(&["lib"]));
    feed(&mut session, &[SyncReply::Pulled, SyncReply::Stashed, SyncReply::Conflict, SyncReply::Clean]);
    assert_eq!(session.request(), SyncRequest::Open { name: "lib".to_string() });
    feed(&mut session, &[SyncReply::Opened, SyncReply::Opened, SyncReply::Pulled, SyncReply::NotRepository]);
    assert_eq!(session.request(), SyncRequest::Stash { name: "lib".to_string() });
    feed(&mut session, &[SyncReply::Stashed, SyncReply::Reapplied, SyncReply::Clean, SyncReply::NotDirectory]);
    assert_eq!(session.request(), SyncRequest::Pull { name: "lib".to_string() });
    feed(&mut session, &[SyncReply::Pulled, SyncReply::Pulled, SyncReply::Opened]);
    assert_eq!(session.request(), SyncRequest::Reapply { name: "lib".to_string() });
    feed(&mut session, &[SyncReply::Conflict]);
    let finished = SyncRequest::Finished {
        report: vec![UpdateOutcome::StashReapplyConflict { name: "lib".to_string() }],
    };
    assert_eq!(session.request(), finished);
    feed(&mut session, &[SyncReply::Opened, SyncReply::NotRepository, SyncReply::Reapplied]);
    assert_eq!(session.request(), finished);
}

#[test]
fn every_library_gets_its_own_outcome() {
    let mut session = Synchronizer::begin(names(&["a", "b", "c", "d", "e"]));
    feed(&mut session, &[SyncReply::NotRepository]);
    feed(&mut session, &[SyncReply::Opened, SyncReply::Stashed, SyncReply::Pulled, SyncReply::Conflict]);
    feed(&mut session, &[SyncReply::NotDirectory]);
    feed(&mut session, &[SyncReply::Opened, SyncReply::Stashed, SyncReply::Pulled, SyncReply::Reapplied]);
    feed(&mut session, &[SyncReply::NotRepository]);
    let report = match session.request() {
        SyncRequest::Finished { report } => report,
        other => panic!("not finished: {:?}", other),
    };
    assert_eq!(
        report,
        vec![
            skipped("a"),
            UpdateOutcome::StashReapplyConflict { name: "b".to_string() },
            updated("d"),
            skipped("e"),
        ]
    );
    let listed: Vec<&str> = report.iter().map(|o| o.name().as_str()).collect();
    assert_eq!(listed, vec!["a", "b", "d", "e"]);
    assert_eq!(clone_report(&report), report);
    assert_eq!(report[1].clone(), report[1]);
}
