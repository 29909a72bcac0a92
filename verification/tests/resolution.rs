use weave::dependency::{ResolutionError, ResolvedDependency};
use weave::resolution::{clone_dependencies, Reply, Request, Resolution};
use weave::resolver::{DepResolver, Fetch, ResolutionPlan};

fn failed(cause: &str) -> Reply {
    Reply::Failed { cause: cause.to_string() }
}

fn probe(name: &str) -> Request {
    Request::ProbeCache { name: name.to_string() }
}

fn resolver() -> DepResolver {
    DepResolver::new("pinned@v1.4 > https://example.org/pinned.git\nblank@ > https://example.org/blank.git\n")
}

#[test]
fn present_cache_is_not_cloned_again() {
    let resolver = resolver();
    let code = "<pinned>\n<std>";
    // First resolution: the cache is empty, the library is cloned and its pin checked out.
    let mut first = resolver.begin(code, "main.vel");
    let mut asked = Vec::new();
    asked.push(first.request());
    first.reply(Reply::Absent);
    asked.push(first.request());
    first.reply(Reply::Done);
    asked.push(first.request());
    first.reply(Reply::Done);
    assert_eq!(
        asked,
        vec![
            probe("pinned"),
            Request::CloneLibrary {
                name: "pinned".to_string(),
                url: "https://example.org/pinned.git".to_string(),
            },
            Request::CheckoutPin { name: "pinned".to_string(), version: "v1.4".to_string() },
        ]
    );
    let expected = Request::Resolved {
        dependencies: vec![
            ResolvedDependency::Library("pinned".to_string()),
            ResolvedDependency::Builtin("std".to_string()),
        ],
    };
    assert_eq!(first.request(), expected);
    // Second resolution: the directory is there, nothing but the probe is asked.
    let mut second = resolver.begin(code, "main.vel");
    assert_eq!(second.request(), probe("pinned"));
    second.reply(Reply::Present);
    assert!(second.is_finished());
    assert_eq!(second.request(), expected);
}

#[test]
fn unpinned_library_is_cloned_without_checkout() {
    let resolver = resolver();
    let mut session = resolver.begin("<crux-lib>\n<blank>", "main.vel");
    assert_eq!(session.request(), probe("crux-lib"));
    session.reply(Reply::Absent);
    assert_eq!(
        session.request(),
        Request::CloneLibrary {
            name: "crux-lib".to_string(),
            url: "https://github.com/Velvet-Lang/crux-lib.git".to_string(),
        }
    );
    session.reply(Reply::Done);
    assert_eq!(session.request(), probe("blank"));
    session.reply(Reply::Absent);
    session.reply(Reply::Done);
    assert!(session.is_finished());
    assert_eq!(
        session.request(),
        Request::Resolved {
            dependencies: vec![
                ResolvedDependency::Library("crux-lib".to_string()),
                ResolvedDependency::Library("blank".to_string()),
            ],
        }
    );
}

#[test]
fn empty_pin_is_not_checked_out() {
    let plan = ResolutionPlan {
        file: "m.vel".to_string(),
        dependencies: vec![ResolvedDependency::Library("a".to_string())],
        fetches: vec![Fetch::Library {
            line: 1,
            name: "a".to_string(),
            url: "u".to_string(),
            version: Some(String::new()),
        }],
        error: None,
    };
    let mut session = Resolution::begin(plan);
    session.reply(Reply::Absent);
    session.reply(Reply::Done);
    assert!(session.is_finished());
    assert!(matches!(session.request(), Request::Resolved { .. }));
}

#[test]
fn failed_clone_ends_the_resolution() {
    let resolver = resolver();
    let mut session = resolver.begin("<std>\n\n<pinned>\n<crux-lib>", "dir/main.vel");
    assert_eq!(session.request(), probe("pinned"));
    session.reply(Reply::Absent);
    session.reply(failed("could not resolve host"));
    let expected = Request::Failed {
        error: ResolutionError::MaterializationFailed {
            file: "dir/main.vel".to_string(),
            line: 3,
            name: "pinned".to_string(),
            cause: "could not resolve host".to_string(),
        },
    };
    assert!(session.is_finished());
    assert_eq!(session.request(), expected);
    session.reply(Reply::Done);
    session.reply(Reply::Present);
    assert_eq!(session.request(), expected);
}

#[test]
fn failed_checkout_ends_the_resolution() {
    let resolver = resolver();
    let mut session = resolver.begin("<pinned>", "main.vel");
    session.reply(Reply::Absent);
    session.reply(Reply::Done);
    session.reply(failed("pathspec 'v1.4' did not match"));
    assert_eq!(
        session.request(),
        Request::Failed {
            error: ResolutionError::MaterializationFailed {
                file: "main.vel".to_string(),
                line: 1,
                name: "pinned".to_string(),
                cause: "pathspec 'v1.4' did not match".to_string(),
            },
        }
    );
}

#[test]
fn local_copy_and_archive_are_tried_once_each() {
    let resolver = resolver();
    let mut session = resolver.begin("<local:../shared/util.vel>\n<https://example.org/a.tar.gz>\n<io>", "main.vel");
    assert_eq!(session.request(), Request::CopyLocal { path: "../shared/util.vel".to_string() });
    session.reply(failed("no such file"));
    assert_eq!(
        session.request(),
        Request::FetchArchive { url: "https://example.org/a.tar.gz".to_string() }
    );
    session.reply(Reply::Done);
    assert_eq!(
        session.request(),
        Request::Resolved {
            dependencies: vec![
                ResolvedDependency::Local("../shared/util.vel".to_string()),
                ResolvedDependency::RemoteArchive("https://example.org/a.tar.gz".to_string()),
                ResolvedDependency::Builtin("io".to_string()),
            ],
        }
    );
}

#[test]
fn reply_that_does_not_answer_is_ignored() {
    let resolver = resolver();
    let mut session = resolver.begin("<pinned>\n<local:a>", "main.vel");
    session.reply(Reply::Done);
    session.reply(failed("x"));
    assert_eq!(session.request(), probe("pinned"));
    session.reply(Reply::Absent);
    session.reply(Reply::Present);
    session.reply(Reply::Absent);
    assert!(matches!(session.request(), Request::CloneLibrary { .. }));
    session.reply(Reply::Done);
    session.reply(Reply::Absent);
    assert!(matches!(session.request(), Request::CheckoutPin { .. }));
    session.reply(Reply::Done);
    session.reply(Reply::Present);
    session.reply(Reply::Absent);
    assert_eq!(session.request(), Request::CopyLocal { path: "a".to_string() });
    assert!(!session.is_finished());
}

#[test]
fn fetches_before_a_bad_declaration_are_still_asked_for() {
    let resolver = resolver();
    let mut session = resolver.begin("<crux-lib>\n<nope>\n<silk-gui>", "main.vel");
    assert_eq!(session.request(), probe("crux-lib"));
    session.reply(Reply::Present);
    assert_eq!(
        session.request(),
        Request::Failed {
            error: ResolutionError::UnknownDependency {
                file: "main.vel".to_string(),
                token: "nope".to_string(),
                line: 2,
            },
        }
    );
}

#[test]
fn failed_clone_comes_before_a_later_bad_declaration() {
    let resolver = resolver();
    let mut session = resolver.begin("<crux-lib>\n<nope>", "main.vel");
    session.reply(Reply::Absent);
    session.reply(failed("offline"));
    assert!(matches!(
        session.request(),
        Request::Failed { error: ResolutionError::MaterializationFailed { .. } }
    ));
}

#[test]
fn resolution_without_fetches_is_finished_at_once() {
    let resolver = resolver();
    let session = resolver.begin("<std>\n<math>", "main.vel");
    assert!(session.is_finished());
    assert_eq!(
        session.request(),
        Request::Resolved {
            dependencies: vec![
                ResolvedDependency::Builtin("std".to_string()),
                ResolvedDependency::Builtin("math".to_string()),
            ],
        }
    );
    let session = resolver.begin("<>", "main.vel");
    assert_eq!(
        session.request(),
        Request::Failed {
            error: ResolutionError::EmptyDeclaration { file: "main.vel".to_string(), line: 1 },
        }
    );
}

#[test]
fn carried_out_resolution_agrees_with_resolve() {
    let resolver = resolver();
    let code = "<pinned>\n<local:x>\n<io>\n<crux-lib>";
    let mut session = resolver.begin(code, "main.vel");
    let mut steps = 0;
    let outcome = loop {
        steps += 1;
        assert!(steps < 20);
        match session.request() {
            Request::Resolved { dependencies } => break Ok(dependencies),
            Request::Failed { error } => break Err(error),
            Request::ProbeCache { .. } => session.reply(Reply::Absent),
            _ => session.reply(Reply::Done),
        }
    };
    assert_eq!(outcome, resolver.resolve(code, "main.vel"));
    assert_eq!(steps, 7);
}

#[test]
fn dependencies_are_copied_in_order() {
    let deps = vec![
        ResolvedDependency::Local("a".to_string()),
        ResolvedDependency::Builtin("std".to_string()),
        ResolvedDependency::RemoteArchive("u.tar.gz".to_string()),
        ResolvedDependency::Library("l".to_string()),
    ];
    assert_eq!(clone_dependencies(&deps), deps);
    assert_eq!(deps[0].clone(), deps[0]);
    let error = ResolutionError::UnknownDependency { file: "f".to_string(), token: "t".to_string(), line: 3 };
    assert_eq!(error.clone(), error);
}
