use pipeshell::pipeline::{Pipeline, Step};

fn spawn_parts(step: Step<u32>) -> (String, Vec<String>, Option<u32>, bool) {
    match step {
        Step::Spawn(req) => (req.program, req.args, req.input, req.piped),
        _ => panic!("expected a process start"),
    }
}

#[test]
fn echo_piped_into_cat() {
    let mut p: Pipeline<u32> = Pipeline::new("echo hi | cat");
    let (program, args, input, piped) = spawn_parts(p.step());
    assert_eq!(program, "echo");
    assert_eq!(args, vec!["hi".to_string()]);
    assert_eq!(input, None);
    assert!(piped);
    assert!(p.is_awaiting());
    p.spawned(Some(1));
    let (program, args, input, piped) = spawn_parts(p.step());
    assert_eq!(program, "cat");
    assert!(args.is_empty());
    assert_eq!(input, Some(1));
    assert!(!piped);
    p.spawned(Some(2));
    assert!(matches!(p.step(), Step::Wait(2)));
    assert!(matches!(p.step(), Step::Done));
}

#[test]
fn exit_line_ends_session() {
    let mut p: Pipeline<u32> = Pipeline::new("exit");
    assert!(matches!(p.step(), Step::Exit));
    assert!(matches!(p.step(), Step::Done));
}

#[test]
fn blank_line_is_noop() {
    let mut p: Pipeline<u32> = Pipeline::new("");
    assert!(matches!(p.step(), Step::Done));
    let mut q: Pipeline<u32> = Pipeline::new("  |  | \n");
    assert!(matches!(q.step(), Step::Done));
}

#[test]
fn failed_start_ends_without_wait() {
    let mut p: Pipeline<u32> = Pipeline::new("nosuchprogram\n");
    let (program, args, input, piped) = spawn_parts(p.step());
    assert_eq!(program, "nosuchprogram");
    assert!(args.is_empty());
    assert_eq!(input, None);
    assert!(!piped);
    p.spawned(None);
    assert!(matches!(p.step(), Step::Done));
}

#[test]
fn failed_stage_breaks_flow() {
    let mut p: Pipeline<u32> = Pipeline::new("a | b | c");
    let (_, _, _, piped) = spawn_parts(p.step());
    assert!(piped);
    p.spawned(Some(1));
    let (program, _, input, piped) = spawn_parts(p.step());
    assert_eq!(program, "b");
    assert_eq!(input, Some(1));
    assert!(piped);
    p.spawned(None);
    let (program, _, input, piped) = spawn_parts(p.step());
    assert_eq!(program, "c");
    assert_eq!(input, None);
    assert!(!piped);
    p.spawned(Some(3));
    assert!(matches!(p.step(), Step::Wait(3)));
}

#[test]
fn exit_mid_pipeline_stops_at_once() {
    let mut p: Pipeline<u32> = Pipeline::new("ls | exit | cat");
    let (program, _, _, piped) = spawn_parts(p.step());
    assert_eq!(program, "ls");
    assert!(piped);
    p.spawned(Some(7));
    assert!(matches!(p.step(), Step::Exit));
    assert!(matches!(p.step(), Step::Done));
}

#[test]
fn cd_drops_pending_handle() {
    let mut p: Pipeline<u32> = Pipeline::new("ls | cd /tmp | cat");
    let (_, _, _, piped) = spawn_parts(p.step());
    assert!(piped);
    p.spawned(Some(5));
    match p.step() {
        Step::ChangeDir(t) => assert_eq!(t, "/tmp"),
        _ => panic!("expected a directory change"),
    }
    let (program, _, input, piped) = spawn_parts(p.step());
    assert_eq!(program, "cat");
    assert_eq!(input, None);
    assert!(!piped);
    p.spawned(Some(6));
    assert!(matches!(p.step(), Step::Wait(6)));
}

#[test]
fn lone_cd_starts_nothing() {
    let mut p: Pipeline<u32> = Pipeline::new("cd /");
    match p.step() {
        Step::ChangeDir(t) => assert_eq!(t, "/"),
        _ => panic!("expected a directory change"),
    }
    assert!(matches!(p.step(), Step::Done));
}

#[test]
fn cd_without_argument_goes_home() {
    let mut p: Pipeline<u32> = Pipeline::new("cd");
    match p.step() {
        Step::ChangeDir(t) => {
            assert_ne!(t, "~");
            assert!(t.starts_with('/'));
        }
        _ => panic!("expected a directory change"),
    }
    assert!(matches!(p.step(), Step::Done));
}

#[test]
fn cd_uses_first_argument_only() {
    let mut p: Pipeline<u32> = Pipeline::new("cd /usr /tmp");
    match p.step() {
        Step::ChangeDir(t) => assert_eq!(t, "/usr"),
        _ => panic!("expected a directory change"),
    }
}

#[test]
fn arguments_keep_order() {
    let mut p: Pipeline<u32> = Pipeline::new("grep -n foo bar.txt");
    let (program, args, _, _) = spawn_parts(p.step());
    assert_eq!(program, "grep");
    assert_eq!(args, vec!["-n".to_string(), "foo".to_string(), "bar.txt".to_string()]);
}
