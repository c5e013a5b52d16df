use bridge::env::{parse_env, split_record};
use bridge::key::{adapter_key, file_stem, find_entry};
use bridge::reply::{classify, outcome_reply, respond, BridgeError, Outcome};
use bridge::session::{decode_request, target_from_parts, Action, SearchDir, Session};
use bridge::text::{join_str, split_str};

fn names(list: &[&str]) -> Vec<String> {
    list.iter().map(|s| s.to_string()).collect()
}

fn finished(code: Option<i32>, out: &[u8]) -> Outcome {
    Outcome::Finished { code, stdout: out.to_vec() }
}

#[test]
fn key_reverses_host_labels() {
    assert_eq!(adapter_key("a.b.example.com"), "com,example,b,a");
    assert_eq!(adapter_key("www.example.com"), "com,example,www");
    assert_eq!(adapter_key("localhost"), "localhost");
    assert_eq!(adapter_key(""), "");
    assert_eq!(adapter_key("a..b"), "b,,a");
}

#[test]
fn key_splits_back_into_labels() {
    let key = adapter_key("news.ycombinator.com");
    let mut labels = split_str(&key, ',');
    labels.reverse();
    assert_eq!(labels, vec!["news", "ycombinator", "com"]);
}

#[test]
fn split_and_join() {
    assert_eq!(split_str("a.b", '.'), vec!["a", "b"]);
    assert_eq!(split_str("", '.'), vec![""]);
    assert_eq!(split_str(".x.", '.'), vec!["", "x", ""]);
    assert_eq!(join_str(&names(&["x", "y", "z"]), "--"), "x--y--z");
    assert_eq!(join_str(&names(&[]), ","), "");
}

#[test]
fn stem_is_text_before_first_dot() {
    assert_eq!(file_stem("com,example.py"), "com,example");
    assert_eq!(file_stem("com,example.tar.gz"), "com,example");
    assert_eq!(file_stem("noext"), "noext");
    assert_eq!(file_stem(".hidden"), "");
}

#[test]
fn find_entry_picks_first_match() {
    let list = names(&["org,other.py", "com,example.py", "com,example.sh"]);
    assert_eq!(find_entry(&list, "com,example"), Some(1));
    assert_eq!(find_entry(&list, "com,exam"), None);
    assert_eq!(find_entry(&names(&[]), "com,example"), None);
}

#[test]
fn percent_encoded_request_matches_plain() {
    let enc = decode_request("%68%74%74%70%3A%2F%2Fexample.com").ok().unwrap();
    let plain = decode_request("http://example.com").ok().unwrap();
    assert_eq!(enc.url, plain.url);
    assert_eq!(enc.host, plain.host);
    assert_eq!(enc.host, "example.com");
    let a = Session::open("%68%74%74%70%3A%2F%2Fexample.com").ok().unwrap();
    let b = Session::open("http://example.com").ok().unwrap();
    assert_eq!(a.url, b.url);
    assert_eq!(a.key, b.key);
    assert_eq!(a.key, "com,example");
}

fn assert_unprocessable(segment: &str) {
    let err = Session::open(segment).err().unwrap();
    assert!(matches!(err, BridgeError::UrlDecodeError));
    let reply = err.reply();
    assert_eq!(reply.status, 422);
    assert!(!reply.body.is_empty());
}

#[test]
fn bad_requests_are_unprocessable() {
    assert_unprocessable("%FF%FE");
    assert_unprocessable("not a url");
    assert_unprocessable("data:text/plain,hello");
    assert_unprocessable("mailto:someone@example.com");
}

#[test]
fn parts_without_host_are_rejected() {
    assert!(target_from_parts(None).is_err());
    assert!(target_from_parts(Some(("data:x".to_string(), None))).is_err());
    let t = target_from_parts(Some(("http://h/".to_string(), Some("h".to_string()))))
        .ok()
        .unwrap();
    assert_eq!(t.url, "http://h/");
    assert_eq!(t.host, "h");
}

fn opened() -> Session {
    Session::open("https://www.example.com/page").ok().unwrap()
}

#[test]
fn no_adapter_in_either_directory_is_not_found() {
    let mut s = opened();
    let a = s.primary_listed(&names(&["org,other.py"]));
    assert!(matches!(a, Action::ListFallback));
    match s.fallback_listed(&names(&["net,else.py"])) {
        Action::Respond(r) => {
            assert_eq!(r.status, 404);
            assert_eq!(r.body, "No adapter found for this website\n");
        }
        _ => panic!("expected a reply"),
    }
    assert!(s.adapter.is_none());
}

#[test]
fn primary_match_wins_over_fallback() {
    let mut s = opened();
    let a = s.primary_listed(&names(&["com,example,www.py"]));
    assert!(matches!(a, Action::ListEnv));
    let e = s.adapter.as_ref().unwrap();
    assert_eq!(e.dir, SearchDir::Primary);
    assert_eq!(e.file_name, "com,example,www.py");
}

#[test]
fn fallback_match_is_used_when_primary_has_none() {
    let mut s = opened();
    assert!(matches!(s.primary_listed(&names(&[])), Action::ListFallback));
    let a = s.fallback_listed(&names(&["x.py", "com,example,www.js"]));
    assert!(matches!(a, Action::ListEnv));
    let e = s.adapter.as_ref().unwrap();
    assert_eq!(e.dir, SearchDir::Fallback);
    assert_eq!(e.file_name, "com,example,www.js");
}

#[test]
fn missing_env_file_runs_with_inherited_env() {
    let mut s = opened();
    s.primary_listed(&names(&["com,example,www.py"]));
    match s.env_listed(&names(&["org,x.env"])) {
        Action::Spawn(inv) => {
            assert!(inv.env.is_none());
            assert_eq!(inv.url, "https://www.example.com/page");
            assert_eq!(inv.adapter.file_name, "com,example,www.py");
        }
        _ => panic!("expected a spawn"),
    }
    match s.env_listed(&names(&["com,example,www.env"])) {
        Action::ReadEnv(n) => assert_eq!(n, "com,example,www.env"),
        _ => panic!("expected an env read"),
    }
}

#[test]
fn malformed_env_file_fails_even_with_adapter() {
    let mut s = opened();
    s.primary_listed(&names(&["com,example,www.py"]));
    for text in [Some("A=1\nbroken\n".to_string()), None] {
        match s.env_read(text) {
            Action::Respond(r) => {
                assert_eq!(r.status, 500);
                assert_eq!(r.body, "Could not read .env file\n");
            }
            _ => panic!("expected a reply"),
        }
    }
}

#[test]
fn env_file_replaces_environment() {
    let mut s = opened();
    s.primary_listed(&names(&["com,example,www.py"]));
    match s.env_read(Some("A=1\n\nB=x=y\nA=2\n".to_string())) {
        Action::Spawn(inv) => {
            let env = inv.env.unwrap();
            assert_eq!(
                env,
                vec![
                    ("A".to_string(), "2".to_string()),
                    ("B".to_string(), "x=y".to_string())
                ]
            );
        }
        _ => panic!("expected a spawn"),
    }
}

#[test]
fn env_parsing() {
    assert_eq!(parse_env(""), Some(vec![]));
    assert_eq!(parse_env("K="), Some(vec![("K".to_string(), "".to_string())]));
    assert_eq!(parse_env("novalue"), None);
    assert_eq!(split_record("a=b=c"), Some(("a".to_string(), "b=c".to_string())));
    assert_eq!(split_record("abc"), None);
}

#[test]
fn success_is_ok_with_output() {
    let r = outcome_reply(finished(Some(0), b"hello"));
    assert_eq!(r.status, 200);
    assert_eq!(r.body, "hello");
    assert_eq!(classify(finished(Some(0), b"hello")).ok().unwrap(), "hello");
}

#[test]
fn invalid_exit_status_becomes_internal_error() {
    let r = outcome_reply(finished(Some(7), b"boom"));
    assert_eq!(r.status, 500);
    assert_eq!(r.body, "boom");
}

#[test]
fn exit_status_becomes_http_status() {
    let r = outcome_reply(finished(Some(404), b"missing"));
    assert_eq!(r.status, 404);
    assert_eq!(r.body, "missing");
    let r = outcome_reply(finished(Some(-1), b"neg"));
    assert_eq!(r.status, 500);
    assert_eq!(r.body, "neg");
    let r = outcome_reply(finished(Some(999), b""));
    assert_eq!(r.status, 999);
    let r = outcome_reply(finished(Some(1000), b""));
    assert_eq!(r.status, 500);
}

#[test]
fn signal_termination_is_internal_error() {
    let r = outcome_reply(finished(None, b"partial out"));
    assert_eq!(r.status, 500);
    assert_eq!(r.body, "Adapter terminated through signal");
}

#[test]
fn signal_termination_ignores_malformed_output() {
    let r = outcome_reply(finished(None, &[0xff]));
    assert_eq!((r.status, r.body.as_str()), (500, "Adapter terminated through signal"));
}

#[test]
fn malformed_output_is_internal_error() {
    let r = outcome_reply(finished(Some(0), &[0x66, 0xff, 0x80]));
    assert_eq!(r.status, 500);
    assert_eq!(r.body, "Adapter returned malformed UTF-8");
}

#[test]
fn process_failures_have_fixed_replies() {
    let r = outcome_reply(Outcome::SpawnFailed);
    assert_eq!((r.status, r.body.as_str()), (500, "Could not spawn adapter process\n"));
    let r = outcome_reply(Outcome::WaitFailed);
    assert_eq!((r.status, r.body.as_str()), (500, "Could not execute adapter\n"));
}

#[test]
fn respond_maps_results() {
    let r = respond(Ok("fine".to_string()));
    assert_eq!((r.status, r.body.as_str()), (200, "fine"));
    let r = respond(Err(BridgeError::NoAdapter));
    assert_eq!(r.status, 404);
}

#[test]
fn percent_decoding_keeps_invalid_escapes_and_plus() {
    let t = decode_request("http%3A%2F%2Fa.b%2Fx+y%zz").ok().unwrap();
    assert_eq!(t.host, "a.b");
    assert_eq!(t.url, "http://a.b/x+y%zz");
    let s = Session::open("http%3a%2f%2fwww.test.org").ok().unwrap();
    assert_eq!(s.key, "org,test,www");
}
