use judos::error::JudosError;
use judos::pipeline::error::PipelineError;
use judos::pipeline::judge::{DockerJudge, DummyJudge, GitTarget, Invocation};
use judos::pipeline::scoreboard::Scoreboard;
use judos::pipeline::stage::{parse_deadline, Deadline, LocalMapping, Moment, Stage};
use judos::pipeline::{Pipeline, Work};
use judos::text::{char_is_whitespace, decode_text, trim};

fn docker() -> DockerJudge {
    DockerJudge {
        image: "os-lab:latest".to_string(),
        copy_to: "/work".to_string(),
        result_path: "/work/result".to_string(),
    }
}

fn moment(secs: i64) -> Moment {
    Moment { secs, nanos: 0 }
}

fn stage(name: &str, from: i64, to: i64) -> Stage {
    Stage {
        name: name.to_string(),
        deadline: Deadline { from: moment(from), to: moment(to) },
        judge: docker(),
        path: format!("labs/{}", name),
    }
}

fn scoreboard() -> Scoreboard {
    Scoreboard {
        repo: "git@example.org:course/scores.git".to_string(),
        scorefile: "scores.csv".to_string(),
        commitfile: "commits.csv".to_string(),
    }
}

fn pipeline(repos: &[&str], stages: Vec<Stage>) -> Pipeline {
    Pipeline {
        name: "os".to_string(),
        poll_interval: 30,
        concurrency: 4,
        log_level: "info".to_string(),
        scoreboard: scoreboard(),
        stages,
        repos: repos.iter().map(|r| r.to_string()).collect(),
    }
}

fn args(inv: &Invocation) -> Vec<&str> {
    inv.args.iter().map(|a| a.as_str()).collect()
}

#[test]
fn repo_starts_at_head() {
    let t = GitTarget::repo("https://github.com/alice/os.git".to_string());
    assert_eq!(t.url, "https://github.com/alice/os.git");
    assert_eq!(t.commit, "HEAD");
}

#[test]
fn on_commit_replaces_only_the_commit() {
    let t = GitTarget::repo("https://github.com/alice/os.git".to_string()).on_commit("4f2a".to_string());
    assert_eq!(t.url, "https://github.com/alice/os.git");
    assert_eq!(t.commit, "4f2a");
    let u = t.clone().on_commit("beef".to_string());
    assert_eq!(u.commit, "beef");
    assert_eq!(u.get_name(), t.get_name());
}

#[test]
fn get_name_strips_path_and_git_suffix() {
    let name = |url: &str| GitTarget::repo(url.to_string()).get_name().to_string();
    assert_eq!(name("https://github.com/alice/os.git"), "os");
    assert_eq!(name("https://github.com/alice/os"), "os");
    assert_eq!(name("os.git"), "os");
    assert_eq!(name("os"), "os");
    assert_eq!(name("https://github.com/alice/"), "");
    assert_eq!(name(""), "");
    assert_eq!(name(".git"), "");
    assert_eq!(name("a/b.gitx"), "b.gitx");
    assert_eq!(name("a/.git.git"), ".git");
    assert_eq!(name("a/git"), "git");
    assert_eq!(name("x/réseau.git"), "réseau");
}

#[test]
fn get_name_never_holds_a_slash() {
    for url in ["a/b/c", "/", "//x.git/", "a//b.git", "no-slash"] {
        let t = GitTarget::repo(url.to_string());
        assert!(!t.get_name().contains('/'));
        assert!(url.ends_with(t.get_name()) || url.ends_with(&format!("{}.git", t.get_name())));
    }
}

#[test]
fn target_is_shown_with_name_and_commit() {
    let t = GitTarget::repo("https://github.com/alice/os.git".to_string());
    assert_eq!(t.to_string(), "GitTarget(os::HEAD)");
    let t = t.on_commit("c0ffee".to_string());
    assert_eq!(t.to_string(), "GitTarget(os::c0ffee)");
}

#[test]
fn targets_compare_by_url_and_commit() {
    let a = GitTarget::repo("r".to_string());
    let b = GitTarget::repo("r".to_string());
    assert_eq!(a, b);
    assert_ne!(a.clone(), b.clone().on_commit("x".to_string()));
    assert_ne!(a, GitTarget::repo("s".to_string()));
}

#[test]
fn work_is_shown_with_stage_and_target() {
    let s = stage("lab1", 0, 10);
    let w = Work::new(GitTarget::repo("https://h/bob/kernel.git".to_string()), &s);
    assert_eq!(w.to_string(), "Work<lab1,GitTarget(kernel::HEAD)>");
    assert_eq!(w.stage.name, "lab1");
}

#[test]
fn trim_removes_unicode_white_space_at_both_ends() {
    assert_eq!(trim(" \t 42.5\n"), "42.5");
    assert_eq!(trim("\u{A0}x y\u{3000}"), "x y");
    assert_eq!(trim("\u{85}\u{2028}7\u{205F}"), "7");
    assert_eq!(trim(""), "");
    assert_eq!(trim(" \r\n "), "");
    assert_eq!(trim("a"), "a");
    assert_eq!(trim("\u{200B}a"), "\u{200B}a");
}

#[test]
fn trim_twice_is_trim_once() {
    for s in ["  a b  ", "\n\n", "x", " \u{A0} 1.0 \u{A0} "] {
        assert_eq!(trim(trim(s)), trim(s));
    }
}

#[test]
fn decode_text_accepts_exactly_utf8() {
    assert_eq!(decode_text(b"abc\n".to_vec()), Some("abc\n".to_string()));
    assert_eq!(decode_text("é€".as_bytes().to_vec()), Some("é€".to_string()));
    assert_eq!(decode_text(vec![0xff]), None);
    assert_eq!(decode_text(vec![0xc3]), None);
    assert_eq!(decode_text(vec![0xed, 0xa0, 0x80]), None);
    assert_eq!(decode_text(vec![]), Some(String::new()));
}

#[test]
fn judge_verdict_reports_trigger_error_on_failure() {
    assert_eq!(DockerJudge::judge_verdict(false, b"100\n".to_vec()), Err(PipelineError::TriggerError));
    assert_eq!(DockerJudge::judge_verdict(false, vec![0xff]), Err(PipelineError::TriggerError));
}

#[test]
fn judge_verdict_reports_malformed_output() {
    assert_eq!(DockerJudge::judge_verdict(true, vec![0xff, 0x31]), Err(PipelineError::MalformedOutput));
}

#[test]
fn judge_verdict_gives_trimmed_score_text() {
    assert_eq!(DockerJudge::judge_verdict(true, b"  97.5\n".to_vec()), Ok("97.5".to_string()));
    assert_eq!(DockerJudge::judge_verdict(true, b"\n".to_vec()), Ok(String::new()));
    let text = DockerJudge::judge_verdict(true, b" 88 \n".to_vec()).unwrap();
    assert_eq!(text.parse::<f64>().unwrap(), 88.0);
}

#[test]
fn judge_command_lists_its_arguments_in_order() {
    let t = GitTarget::repo("https://h/a/os.git".to_string()).on_commit("abc".to_string());
    let inv = docker().judge_command(&t, "labs/lab2");
    assert_eq!(inv.program, "./scripts/judge.sh");
    assert_eq!(
        args(&inv),
        vec!["os-lab:latest", "https://h/a/os.git", "labs/lab2", "/work", "/work/result", "abc"]
    );
}

#[test]
fn trigger_command_uses_the_stage_path() {
    let s = stage("lab3", 0, 1);
    let t = GitTarget::repo("u".to_string());
    let inv = s.trigger_command(&t);
    assert_eq!(inv.program, "./scripts/judge.sh");
    assert_eq!(args(&inv), vec!["os-lab:latest", "u", "labs/lab3", "/work", "/work/result", "HEAD"]);
}

#[test]
fn polling_command_lists_url_and_path() {
    let s = stage("lab1", 0, 1);
    let t = GitTarget::repo("https://h/a/os.git".to_string());
    let inv = s.polling_command(&t);
    assert_eq!(inv.program, "./scripts/retard_polling.sh");
    assert_eq!(args(&inv), vec!["https://h/a/os.git", "labs/lab1"]);
}

#[test]
fn poll_outcome_takes_the_printed_commit() {
    let t = GitTarget::repo("https://h/a/os.git".to_string());
    let r = Stage::poll_outcome(t.clone(), true, b"9fceb02\n".to_vec()).unwrap();
    assert_eq!(r.url, t.url);
    assert_eq!(r.commit, "9fceb02\n");
}

#[test]
fn poll_outcome_is_none_on_failure_or_bad_text() {
    let t = GitTarget::repo("u".to_string());
    assert_eq!(Stage::poll_outcome(t.clone(), false, b"9fceb02".to_vec()), None);
    assert_eq!(Stage::poll_outcome(t, true, vec![0x80]), None);
}

#[test]
fn update_command_records_name_grade_and_commit() {
    let t = GitTarget::repo("https://h/carol/os.git".to_string()).on_commit("1234".to_string());
    let inv = scoreboard().update_command("lab1", &t, "97.5");
    assert_eq!(inv.program, "./scripts/update_scoreboard.sh");
    assert_eq!(
        args(&inv),
        vec!["scores.csv", "git@example.org:course/scores.git", "os", "97.5", "lab1", "commits.csv", "1234"]
    );
}

#[test]
fn poll_all_orders_every_repository_for_every_stage() {
    let p = pipeline(&["r/a.git", "r/b.git"], vec![stage("s1", 0, 1), stage("s2", 0, 1), stage("s3", 0, 1)]);
    let works = p.poll_all(true);
    assert_eq!(works.len(), 6);
    for (i, repo) in ["r/a.git", "r/b.git"].iter().enumerate() {
        for (j, st) in ["s1", "s2", "s3"].iter().enumerate() {
            let w = &works[i * 3 + j];
            assert_eq!(w.target.url, *repo);
            assert_eq!(w.target.commit, "HEAD");
            assert_eq!(w.stage.name, *st);
        }
    }
}

#[test]
fn poll_all_waits_for_the_previous_round() {
    let p = pipeline(&["r/a.git"], vec![stage("s1", 0, 1)]);
    assert!(p.poll_all(false).is_empty());
}

#[test]
fn poll_all_without_repositories_or_stages_is_empty() {
    assert!(pipeline(&[], vec![stage("s1", 0, 1)]).poll_all(true).is_empty());
    assert!(pipeline(&["r/a.git"], vec![]).poll_all(true).is_empty());
}

#[test]
fn stop_signals_cover_the_poller_and_every_worker() {
    let mut p = pipeline(&[], vec![]);
    assert_eq!(p.stop_signal_capacity(), Some(5));
    p.concurrency = 0;
    assert_eq!(p.stop_signal_capacity(), Some(1));
    p.concurrency = usize::MAX;
    assert_eq!(p.stop_signal_capacity(), None);
}

#[test]
fn moments_are_ordered_by_seconds_then_nanoseconds() {
    assert!(moment(1).is_before(&moment(2)));
    assert!(!moment(2).is_before(&moment(2)));
    assert!(Moment { secs: 2, nanos: 1 }.is_before(&Moment { secs: 2, nanos: 2 }));
    assert!(!Moment { secs: 3, nanos: 0 }.is_before(&Moment { secs: 2, nanos: 999 }));
}

#[test]
fn deadline_bounds_are_exclusive() {
    let d = Deadline { from: moment(10), to: moment(20) };
    assert!(d.admits(moment(11), moment(19)));
    assert!(!d.admits(moment(10), moment(15)));
    assert!(!d.admits(moment(15), moment(20)));
    assert!(d.admits(Moment { secs: 10, nanos: 1 }, Moment { secs: 19, nanos: 999_999_999 }));
}

#[test]
fn open_now_follows_the_clock() {
    let open = Deadline { from: moment(0), to: moment(i64::MAX) };
    assert!(open.is_open_now());
    let past = Deadline { from: moment(0), to: moment(1_000_000_000) };
    assert!(!past.is_open_now());
    let future = Deadline { from: moment(i64::MAX - 1), to: moment(i64::MAX) };
    assert!(!future.is_open_now());
    let before_epoch = Deadline { from: moment(-100), to: moment(0) };
    assert!(!before_epoch.is_open_now());
}

#[test]
fn parse_deadline_reads_the_configured_format() {
    let a = parse_deadline("2024_03_10-12:00:00").0.unwrap();
    let b = parse_deadline("2024_03_10-12:00:59").0.unwrap();
    assert_eq!(b.secs - a.secs, 59);
    assert_eq!(a.nanos, 0);
    assert!(parse_deadline("2024-03-10 12:00:00").0.is_none());
    assert!(parse_deadline("").0.is_none());
    assert!(parse_deadline("2024_13_10-12:00:00").0.is_none());
}

#[test]
fn error_kinds_are_distinct() {
    assert_ne!(JudosError::TriggerError, JudosError::MalformedOutput);
    assert_ne!(PipelineError::TriggerError, PipelineError::MalformedOutput);
    let _dummy = DummyJudge;
}

#[test]
fn parse_deadline_stays_within_a_day_of_utc() {
    let m = parse_deadline("1970_01_02-00:00:00").0.unwrap();
    assert!(m.secs > 0 && m.secs < 2 * 86_400);
    assert_eq!(m.nanos, 0);
    let m = parse_deadline("2024_07_01-08:30:00").0.unwrap();
    assert!((m.secs - 1_719_822_600).abs() < 86_400);
}

#[test]
fn local_mapping_keeps_only_a_unique_instant() {
    assert_eq!(LocalMapping::Single(moment(5)).unique(), Some(moment(5)));
    assert_eq!(LocalMapping::Ambiguous(moment(5), moment(6)).unique(), None);
    assert_eq!(LocalMapping::Impossible.unique(), None);
}

#[test]
fn a_window_over_all_representable_time_is_open() {
    let all = Deadline { from: moment(-1), to: moment(8_210_266_876_800) };
    assert!(all.is_open_now());
}

#[test]
fn white_space_agrees_with_std_on_every_char() {
    for v in 0..=0x10ffffu32 {
        if let Some(c) = char::from_u32(v) {
            assert_eq!(char_is_whitespace(c), c.is_whitespace(), "U+{:04X}", v);
        }
    }
}

#[test]
fn poll_command_is_none_while_the_window_is_closed() {
    let t = GitTarget::repo("https://h/a/os.git".to_string());
    let closed = stage("lab1", 0, 1_000_000_000);
    assert!(closed.poll_command(&t).is_none());
    let open = stage("lab2", -1, 8_210_266_876_800);
    let inv = open.poll_command(&t).unwrap();
    assert_eq!(inv.program, "./scripts/retard_polling.sh");
    assert_eq!(args(&inv), vec!["https://h/a/os.git", "labs/lab2"]);
}

#[test]
fn parse_deadline_rejects_text_outside_the_format() {
    assert!(parse_deadline("2024_02_30-10:00:00").0.is_none());
    assert!(parse_deadline("2024_02_28-25:00:00").0.is_none());
}
