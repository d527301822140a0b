use rpm_macro::builtins;
use rpm_macro::builtins::{BuiltinId, EnvValue, Request, Resolution, ScriptOutcome};
use rpm_macro::cursor::Cursor;
use rpm_macro::error::MacroError;
use rpm_macro::interp::{Interp, Severity};

fn t(s: &str) -> Vec<char> {
    s.chars().collect()
}

fn s(v: &[char]) -> String {
    v.iter().collect()
}

fn cur_over(buf: &Vec<char>) -> Cursor {
    Cursor::over(buf, "test".to_string())
}

#[test]
fn lower_then_upper_matches_plain_upper() {
    let buf = t("MiXeD AsCii 123");
    let mut out1: Vec<char> = Vec::new();
    let mut c1 = cur_over(&buf);
    builtins::lower(&mut out1, &mut c1, &buf);
    assert_eq!(s(&out1), "mixed ascii 123");
    // upper of the lowered text equals upper of the original
    let mut out2: Vec<char> = Vec::new();
    let mut c2 = cur_over(&out1);
    builtins::upper(&mut out2, &mut c2, &out1);
    let mut out3: Vec<char> = Vec::new();
    let mut c3 = cur_over(&buf);
    builtins::upper(&mut out3, &mut c3, &buf);
    assert_eq!(s(&out2), s(&out3));
    assert_eq!(s(&out3), "MIXED ASCII 123");
}

#[test]
fn reverse_twice_is_identity() {
    let buf = t("ab cd!");
    let mut once: Vec<char> = Vec::new();
    let mut c1 = cur_over(&buf);
    builtins::reverse(&mut once, &mut c1, &buf);
    assert_eq!(s(&once), "!dc ba");
    let mut twice: Vec<char> = Vec::new();
    let mut c2 = cur_over(&once);
    builtins::reverse(&mut twice, &mut c2, &once);
    assert_eq!(s(&twice), "ab cd!");
}

#[test]
fn len_counts_code_points() {
    let buf = t("h\u{e9}llo");
    let mut out: Vec<char> = Vec::new();
    let mut c = cur_over(&buf);
    builtins::len(&mut out, &mut c, &buf);
    assert_eq!(s(&out), "5");
    let empty = t("");
    let mut out2: Vec<char> = Vec::new();
    let mut c2 = cur_over(&empty);
    builtins::len(&mut out2, &mut c2, &empty);
    assert_eq!(s(&out2), "0");
}

#[test]
fn shescape_quotes_embedded_quote() {
    let buf = t("it's");
    let mut out: Vec<char> = Vec::new();
    let mut c = cur_over(&buf);
    builtins::shescape(&mut out, &mut c, &buf);
    assert_eq!(s(&out), "'it'\\''s'");
}

#[test]
fn basename_and_dirname_split_on_last_slash() {
    let buf = t("a/b/c");
    let mut out: Vec<char> = Vec::new();
    let mut c = cur_over(&buf);
    builtins::basename(&mut out, &mut c, &buf);
    assert_eq!(s(&out), "c");
    let mut out2: Vec<char> = Vec::new();
    let mut c2 = cur_over(&buf);
    builtins::dirname(&mut out2, &mut c2, &buf);
    assert_eq!(s(&out2), "a/b");
    let nodir = t("nodir");
    let mut out3: Vec<char> = Vec::new();
    let mut c3 = cur_over(&nodir);
    builtins::basename(&mut out3, &mut c3, &nodir);
    assert_eq!(s(&out3), "nodir");
    let mut out4: Vec<char> = Vec::new();
    let mut c4 = cur_over(&nodir);
    builtins::dirname(&mut out4, &mut c4, &nodir);
    assert_eq!(s(&out4), "nodir");
}

#[test]
fn suffix_takes_after_last_dot() {
    let buf = t("file.tar.gz");
    let mut out: Vec<char> = Vec::new();
    let mut c = cur_over(&buf);
    builtins::suffix(&mut out, &mut c, &buf);
    assert_eq!(s(&out), "gz");
    let noext = t("noext");
    let mut out2: Vec<char> = Vec::new();
    let mut c2 = cur_over(&noext);
    builtins::suffix(&mut out2, &mut c2, &noext);
    assert_eq!(s(&out2), "");
}

#[test]
fn url2path_known_scheme_gives_path() {
    let buf = t("https://host/p/q");
    let mut out: Vec<char> = Vec::new();
    let mut c = cur_over(&buf);
    builtins::url2path(&mut out, &mut c, &buf);
    assert_eq!(s(&out), "/p/q");
    let ftp = t("ftp://h/r");
    let mut out2: Vec<char> = Vec::new();
    let mut c2 = cur_over(&ftp);
    builtins::url2path(&mut out2, &mut c2, &ftp);
    assert_eq!(s(&out2), "/r");
}

#[test]
fn url2path_unknown_scheme_passes_through() {
    let buf = t("custom:foo");
    let mut out: Vec<char> = Vec::new();
    let mut c = cur_over(&buf);
    builtins::u2p(&mut out, &mut c, &buf);
    assert_eq!(s(&out), "custom:foo");
    let junk = t("not a url at all");
    let mut out2: Vec<char> = Vec::new();
    let mut c2 = cur_over(&junk);
    builtins::url2path(&mut out2, &mut c2, &junk);
    assert_eq!(s(&out2), "not a url at all");
}

#[test]
fn define_then_resolve_gives_body() {
    let mut p = Interp::new(64);
    let buf = t("greeting hello");
    let mut c = cur_over(&buf);
    assert!(builtins::define(&mut p, &mut c, &buf).is_ok());
    match rpm_macro::builtins::resolve(&p, &t("greeting"), &buf) {
        Ok(Resolution::Body(mut body)) => {
            let got = body.collect_text(&buf);
            assert_eq!(s(&got), "hello");
        },
        _ => panic!("expected a user-defined body"),
    }
}

#[test]
fn define_marks_parameterized_and_undefine_removes() {
    let mut p = Interp::new(64);
    let buf = t("f() body-%1");
    let mut c = cur_over(&buf);
    assert!(builtins::define(&mut p, &mut c, &buf).is_ok());
    let nbuf = t("f");
    let mut c2 = cur_over(&nbuf);
    assert!(builtins::undefine(&mut p, &mut c2, &nbuf).is_ok());
    match rpm_macro::builtins::resolve(&p, &t("f"), &buf) {
        Err(MacroError::MacroNotFound(name)) => assert_eq!(s(&name), "f"),
        _ => panic!("expected macro-not-found"),
    }
}

#[test]
fn undefine_removes_whole_stack_including_builtin() {
    let mut p = Interp::new(64);
    builtins::seed(&mut p);
    // `quote` resolves to its builtin
    let empty = t("");
    assert!(matches!(
        rpm_macro::builtins::resolve(&p, &t("quote"), &empty),
        Ok(Resolution::Builtin(BuiltinId::Quote))
    ));
    // shadow it twice with user definitions
    let buf1 = t("quote one");
    let mut c1 = cur_over(&buf1);
    assert!(builtins::define(&mut p, &mut c1, &buf1).is_ok());
    let buf2 = t("quote two");
    let mut c2 = cur_over(&buf2);
    assert!(builtins::define(&mut p, &mut c2, &buf2).is_ok());
    // one undefine removes both user definitions and the builtin
    let nbuf = t("quote");
    let mut c3 = cur_over(&nbuf);
    assert!(builtins::undefine(&mut p, &mut c3, &nbuf).is_ok());
    assert!(matches!(
        rpm_macro::builtins::resolve(&p, &t("quote"), &empty),
        Err(MacroError::MacroNotFound(_))
    ));
}

#[test]
fn define_without_second_token_is_malformed() {
    let mut p = Interp::new(64);
    let buf = t("onlyname");
    let mut c = cur_over(&buf);
    assert!(matches!(
        builtins::define(&mut p, &mut c, &buf),
        Err(MacroError::MalformedDirective)
    ));
}

#[test]
fn getenv_results() {
    let mut out: Vec<char> = Vec::new();
    assert!(builtins::getenv_result(&mut out, &EnvValue::Missing).is_ok());
    assert_eq!(s(&out), "");
    assert!(builtins::getenv_result(&mut out, &EnvValue::Text(t("v1"))).is_ok());
    assert_eq!(s(&out), "v1");
    assert!(matches!(
        builtins::getenv_result(&mut out, &EnvValue::NonText),
        Err(MacroError::NonTextEnvironmentValue)
    ));
    assert_eq!(s(&out), "v1");
}

#[test]
fn getconfdir_default_when_unset() {
    let mut out: Vec<char> = Vec::new();
    assert!(builtins::getconfdir_result(&mut out, &EnvValue::Missing).is_ok());
    assert_eq!(s(&out), "/usr/lib/rpm");
    let mut out2: Vec<char> = Vec::new();
    assert!(builtins::getconfdir_result(&mut out2, &EnvValue::Text(t("/etc/rpm"))).is_ok());
    assert_eq!(s(&out2), "/etc/rpm");
}

#[test]
fn exists_emits_one_or_zero() {
    let root_exists = std::path::Path::new("/").exists();
    assert!(root_exists);
    let mut out: Vec<char> = Vec::new();
    builtins::exists_result(&mut out, root_exists);
    assert_eq!(s(&out), "1");
    let missing = std::path::Path::new("/definitely/not/here/xyz").exists();
    let mut out2: Vec<char> = Vec::new();
    builtins::exists_result(&mut out2, missing);
    assert_eq!(s(&out2), "0");
}

#[test]
fn exists_request_carries_path() {
    let buf = t("/some/path");
    let mut c = cur_over(&buf);
    match builtins::exists_check(&mut c, &buf) {
        Request::ExistsCheck { path } => assert_eq!(s(&path), "/some/path"),
        _ => panic!("expected an existence check request"),
    }
}

#[test]
fn range_view_stays_within_its_end_after_growth() {
    let mut buf = t("ab");
    let mut parent = cur_over(&buf);
    let mut view = parent.range(0, 2).unwrap();
    // the buffer grows append-only and the parent's window is extended
    buf.push('c');
    buf.push('d');
    parent.extend_end(4, &buf);
    // the view still reads exactly what it was created over
    let got = view.collect_text(&buf);
    assert_eq!(s(&got), "ab");
    assert_eq!(view.next(&buf), None);
    // an out-of-bounds range is refused
    assert!(matches!(
        view.range(0, 5),
        Err(MacroError::UnboundedRange)
    ));
}

#[test]
fn seed_registers_builtins() {
    let mut p = Interp::new(64);
    builtins::seed(&mut p);
    let empty = t("");
    assert!(matches!(
        rpm_macro::builtins::resolve(&p, &t("lower"), &empty),
        Ok(Resolution::Builtin(BuiltinId::Lower))
    ));
    assert!(matches!(
        rpm_macro::builtins::resolve(&p, &t("S"), &empty),
        Ok(Resolution::Builtin(BuiltinId::SourceNum))
    ));
    assert!(matches!(
        rpm_macro::builtins::resolve(&p, &t("nosuch"), &empty),
        Err(MacroError::MacroNotFound(_))
    ));
}

#[test]
fn getncpus_emits_positive_count() {
    let mut p = Interp::new(64);
    let empty = t("");
    let mut c = cur_over(&empty);
    let mut out: Vec<char> = Vec::new();
    builtins::getncpus(&mut p, &mut out, &mut c, &empty);
    let n: usize = s(&out).parse().unwrap();
    assert!(n >= 1);
    assert!(p.diags.is_empty());
    // trailing arguments draw a warning, nothing fatal
    let args = t("junk");
    let mut c2 = cur_over(&args);
    let mut out2: Vec<char> = Vec::new();
    builtins::getncpus(&mut p, &mut out2, &mut c2, &args);
    assert_eq!(p.diags.len(), 1);
    assert!(matches!(p.diags[0].level, Severity::Warning));
}

#[test]
fn shrink_collapses_whitespace() {
    let buf = t("  a \t b  ");
    let mut out: Vec<char> = Vec::new();
    let mut c = cur_over(&buf);
    builtins::shrink(&mut out, &mut c, &buf);
    assert_eq!(s(&out), "a b");
}

#[test]
fn quote_wraps_verbatim() {
    let buf = t("a \"b\"");
    let mut out: Vec<char> = Vec::new();
    let mut c = cur_over(&buf);
    builtins::quote(&mut out, &mut c, &buf);
    assert_eq!(s(&out), "\"a \"b\"\"");
}

#[test]
fn macrobody_emits_raw_body_or_placeholder() {
    let mut p = Interp::new(64);
    builtins::seed(&mut p);
    let buf = t("m raw-%text\nquote");
    let mut c = cur_over(&buf);
    assert!(builtins::define(&mut p, &mut c, &buf).is_ok());
    // the cursor now sits on the second line holding the name `quote`
    let mut out: Vec<char> = Vec::new();
    assert!(builtins::macrobody(&p, &mut out, &mut c, &buf).is_ok());
    assert_eq!(s(&out), "<builtin>");
    let namebuf = t("m");
    let mut c2 = cur_over(&namebuf);
    let mut out2: Vec<char> = Vec::new();
    assert!(builtins::macrobody(&p, &mut out2, &mut c2, &buf).is_ok());
    assert_eq!(s(&out2), "raw-%text");
}

#[test]
fn macrobody_unknown_name_fails() {
    let p = Interp::new(64);
    let buf = t("ghost");
    let mut c = cur_over(&buf);
    let mut out: Vec<char> = Vec::new();
    match builtins::macrobody(&p, &mut out, &mut c, &buf) {
        Err(MacroError::MacroNotFound(name)) => assert_eq!(s(&name), "ghost"),
        _ => panic!("expected macro-not-found"),
    }
}

#[test]
fn expand_and_tag_requests() {
    let buf = t("rest of it");
    let c = cur_over(&buf);
    match builtins::expand(&c, &buf) {
        Request::Expand { mut view } => {
            let got = view.collect_text(&buf);
            assert_eq!(s(&got), "rest of it");
        },
        _ => panic!("expected an expansion request"),
    }
    let mut c2 = cur_over(&buf);
    match builtins::source_tag(&mut c2, &buf) {
        Request::ExpandThenAppend { text, rest } => {
            assert_eq!(s(&text), "%SOURCE");
            assert_eq!(s(&rest), "rest of it");
        },
        _ => panic!("expected an expand-then-append request"),
    }
    let mut c3 = cur_over(&buf);
    match builtins::patch_tag(&mut c3, &buf) {
        Request::ExpandThenAppend { text, .. } => assert_eq!(s(&text), "%PATCH"),
        _ => panic!("expected an expand-then-append request"),
    }
}

#[test]
fn lua_round_trip_and_failure() {
    let buf = t("print('hi')");
    let mut c = cur_over(&buf);
    match builtins::lua(&mut c, &buf) {
        Request::Script { script } => assert_eq!(s(&script), "print('hi')"),
        _ => panic!("expected a script request"),
    }
    let mut out: Vec<char> = Vec::new();
    assert!(builtins::lua_result(&mut out, &ScriptOutcome::Output(t("hi"))).is_ok());
    assert_eq!(s(&out), "hi");
    assert!(matches!(
        builtins::lua_result(&mut out, &ScriptOutcome::Failed),
        Err(MacroError::ScriptFailure)
    ));
}

#[test]
fn unimplemented_builtins_signal_loudly() {
    assert!(matches!(
        builtins::not_implemented(),
        Err(MacroError::Unimplemented)
    ));
}

#[test]
fn depth_guard_trips_at_limit() {
    let mut p = Interp::new(2);
    assert!(p.enter_expansion().is_ok());
    assert!(p.enter_expansion().is_ok());
    assert!(matches!(
        p.enter_expansion(),
        Err(MacroError::RecursionLimitExceeded)
    ));
    p.leave_expansion();
    assert!(p.enter_expansion().is_ok());
}

#[test]
fn echo_warn_error_log_not_emit() {
    let mut p = Interp::new(8);
    let buf = t("message");
    let mut c = cur_over(&buf);
    builtins::echo(&mut p, &mut c, &buf);
    let mut c2 = cur_over(&buf);
    builtins::warn(&mut p, &mut c2, &buf);
    let mut c3 = cur_over(&buf);
    builtins::error(&mut p, &mut c3, &buf);
    assert_eq!(p.diags.len(), 3);
    assert!(matches!(p.diags[0].level, Severity::Info));
    assert!(matches!(p.diags[1].level, Severity::Warning));
    assert!(matches!(p.diags[2].level, Severity::Error));
    assert_eq!(s(&p.diags[0].text), "message");
}

#[test]
fn verbose_is_fixed_placeholder() {
    let mut out: Vec<char> = Vec::new();
    builtins::verbose(&mut out);
    assert_eq!(s(&out), "0");
}

#[test]
fn error_descriptions() {
    let e = MacroError::UnboundedRange;
    assert_eq!(s(&e.describe()), "unwindable range");
    let e2 = MacroError::RecursionLimitExceeded;
    assert_eq!(s(&e2.describe()), "recursion limit exceeded");
}

#[test]
fn read_til_eol_consumes_terminator() {
    let buf = t("one\ntwo");
    let mut c = cur_over(&buf);
    let first = c.read_til_eol(&buf).unwrap();
    assert_eq!(s(&first), "one");
    let second = c.read_til_eol(&buf).unwrap();
    assert_eq!(s(&second), "two");
    assert!(c.read_til_eol(&buf).is_none());
}

#[test]
fn define_from_text_appends_to_session_buffer() {
    let mut p = Interp::new(8);
    let mut buf = t("existing");
    p.define_from_text(&mut buf, t("greet"), &t("hi"), false, "lit".to_string());
    assert_eq!(s(&buf), "existinghi");
    match rpm_macro::builtins::resolve(&p, &t("greet"), &buf) {
        Ok(Resolution::Body(mut body)) => assert_eq!(s(&body.collect_text(&buf)), "hi"),
        _ => panic!("expected a user-defined body"),
    }
}

#[test]
fn undefine_with_exhausted_cursor_is_malformed() {
    let mut p = Interp::new(8);
    let buf = t("");
    let mut c = cur_over(&buf);
    assert!(matches!(
        builtins::undefine(&mut p, &mut c, &buf),
        Err(MacroError::MalformedDirective)
    ));
}

#[test]
fn dump_formats_one_line_per_macro() {
    let mut p = Interp::new(8);
    let buf = t("first\nm body\nrest");
    let mut c = cur_over(&buf);
    c.pos = 6; // start of the second line, where the directive begins
    assert!(builtins::define(&mut p, &mut c, &buf).is_ok());
    // the definition's span indexes `buf`, so the report is built
    // against that same session buffer; the argument window is empty
    let mut c3 = cur_over(&buf);
    c3.pos = c3.end;
    let req = builtins::dump(&mut p, &mut c3, &buf);
    match req {
        Request::WriteOut { lines } => {
            assert_eq!(s(&lines), "[test:2:3]\t%m\tbody\n");
        }
        _ => panic!("expected a write request"),
    }
    assert!(p.diags.is_empty());
}
