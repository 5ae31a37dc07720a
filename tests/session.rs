use cport::config::Configure;
use cport::container::{create_request, labels};
use cport::error::ContainerError;
use cport::session::{Action, Event, RemoteOp, Session, Task};

fn s(x: &str) -> String {
    x.to_string()
}

fn sample() -> Configure {
    Configure {
        source: s("/proj"),
        image: s("debian"),
        apt: vec![s("libboost-dev")],
        generator: s("Ninja"),
        build: s("_cport"),
        option: vec![(s("CMAKE_BUILD_TYPE"), s("Release"))],
    }
}

fn pairs(v: &[(&str, &str)]) -> Vec<(String, String)> {
    v.iter().map(|(k, x)| (s(k), s(x))).collect()
}

fn identity() -> Vec<(String, String)> {
    pairs(&[("cport.image", "debian"), ("cport.source", "/proj"), ("cport.build", "_cport")])
}

fn expect_exec(a: Action, id: &str, cmd: &[&str]) {
    match a {
        Action::Perform(RemoteOp::Exec { id: i, cmd: c }) => {
            assert_eq!(i, id);
            assert_eq!(c, cmd);
        }
        _ => panic!("expected an exec"),
    }
}

fn expect_start(a: Action, id: &str) {
    match a {
        Action::Perform(RemoteOp::Start { id: i }) => assert_eq!(i, id),
        _ => panic!("expected a start"),
    }
}

fn expect_stop(a: Action, id: &str) {
    match a {
        Action::Perform(RemoteOp::Stop { id: i }) => assert_eq!(i, id),
        _ => panic!("expected a stop"),
    }
}

#[test]
fn identity_labels_of_config() {
    assert_eq!(labels(&sample()), identity());
}

#[test]
fn distinct_identities_have_distinct_labels() {
    let a = sample();
    for change in 0..3 {
        let mut b = sample();
        match change {
            0 => b.image = s("ubuntu"),
            1 => b.source = s("/other"),
            _ => b.build = s("build"),
        }
        assert_ne!(labels(&a), labels(&b));
    }
    let mut same = sample();
    same.apt = vec![];
    same.generator = s("Unix Makefiles");
    assert_eq!(labels(&a), labels(&same));
}

#[test]
fn create_request_of_config() {
    let r = create_request(&sample());
    assert_eq!(r.image, "debian");
    assert_eq!(r.volumes, vec!["/proj:/proj"]);
    assert!(r.tty);
    assert!(!r.auto_remove);
    assert_eq!(r.labels, identity());
}

#[test]
fn fresh_build_creates_then_runs_in_order() {
    let (mut run, first) = Session::new(sample(), Task::Build);
    match first {
        RemoteOp::List { filter } => assert_eq!(filter, identity()),
        _ => panic!("expected a listing"),
    }
    match run.step(Event::Listed(vec![])) {
        Action::Perform(RemoteOp::Create { request }) => {
            assert_eq!(request.image, "debian");
            assert_eq!(request.labels, identity());
        }
        _ => panic!("expected a creation"),
    }
    expect_start(run.step(Event::Created(s("new1"))), "new1");
    expect_exec(
        run.step(Event::Completed),
        "new1",
        &["cmake", "-B/proj/_cport", "-H/proj", "-GNinja", "-DCMAKE_BUILD_TYPE=Release"],
    );
    expect_exec(run.step(Event::Completed), "new1", &["cmake", "--build", "/proj/_cport"]);
    expect_stop(run.step(Event::Completed), "new1");
    assert_eq!(run.exit_code(), None);
    assert!(matches!(run.step(Event::Completed), Action::Finish));
    assert!(run.is_over());
    assert_eq!(run.exit_code(), Some(0));
}

#[test]
fn reused_build_adopts_first_listed() {
    let (mut run, _) = Session::new(sample(), Task::Build);
    expect_start(run.step(Event::Listed(vec![s("old1"), s("old2")])), "old1");
    expect_exec(
        run.step(Event::Completed),
        "old1",
        &["cmake", "-B/proj/_cport", "-H/proj", "-GNinja", "-DCMAKE_BUILD_TYPE=Release"],
    );
    expect_exec(run.step(Event::Completed), "old1", &["cmake", "--build", "/proj/_cport"]);
    expect_stop(run.step(Event::Completed), "old1");
    assert!(matches!(run.step(Event::Completed), Action::Finish));
}

#[test]
fn fault_on_create_aborts_with_code_and_message() {
    let (mut run, _) = Session::new(sample(), Task::Build);
    assert!(matches!(run.step(Event::Listed(vec![])), Action::Perform(RemoteOp::Create { .. })));
    let fault = ContainerError::Fault { code: 409, message: s("Conflict. The name is in use") };
    match run.step(Event::Failed(fault)) {
        Action::Abort(ContainerError::Fault { code, message }) => {
            assert_eq!(code, 409);
            assert_eq!(message, "Conflict. The name is in use");
        }
        _ => panic!("expected the fault"),
    }
    assert!(run.is_over());
    assert_eq!(run.exit_code(), Some(1));
}

#[test]
fn failure_during_build_stops_the_run() {
    let (mut run, _) = Session::new(sample(), Task::Build);
    expect_start(run.step(Event::Listed(vec![s("c")])), "c");
    run.step(Event::Completed);
    match run.step(Event::Failed(ContainerError::Transport(s("broken pipe")))) {
        Action::Abort(ContainerError::Transport(m)) => assert_eq!(m, "broken pipe"),
        _ => panic!("expected the transport error"),
    }
    assert_eq!(run.exit_code(), Some(1));
}

#[test]
fn unexpected_answer_aborts() {
    let (mut run, _) = Session::new(sample(), Task::Build);
    match run.step(Event::Completed) {
        Action::Abort(ContainerError::Transport(m)) => {
            assert_eq!(m, "unexpected reply from the container runtime")
        }
        _ => panic!("expected a transport error"),
    }
    assert!(run.is_over());
}

#[test]
fn install_runs_update_then_install() {
    let (mut run, _) = Session::new(sample(), Task::Install);
    expect_start(run.step(Event::Listed(vec![s("c")])), "c");
    expect_exec(run.step(Event::Completed), "c", &["apt", "update"]);
    expect_exec(run.step(Event::Completed), "c", &["apt", "install", "-y", "libboost-dev"]);
    expect_stop(run.step(Event::Completed), "c");
    assert!(matches!(run.step(Event::Completed), Action::Finish));
    assert_eq!(run.exit_code(), Some(0));
}

#[test]
fn configuration_error_is_passed_through() {
    let (mut run, _) = Session::new(sample(), Task::Install);
    let e = ContainerError::Configuration(s("cport.toml: missing image"));
    match run.step(Event::Failed(e)) {
        Action::Abort(ContainerError::Configuration(m)) => assert_eq!(m, "cport.toml: missing image"),
        _ => panic!("expected the configuration error"),
    }
    assert_eq!(run.exit_code(), Some(1));
}
