use carai::settings::{
    build_database_setting, build_server_setting, build_settings, lookup, lookup_optional,
    space_seperated_string, Environment, Error,
};

fn env_of(pairs: &[(&str, &str)]) -> Environment {
    let mut env = Environment::new();
    for (k, v) in pairs {
        env.push(k.to_string(), v.to_string());
    }
    env
}

#[test]
fn test_error_display() {
    let key = "TEST_KEY";
    let cause = "Invalid integer".to_string();
    let error = Error::Parse { key, cause };

    assert_eq!(
        error.message(),
        "Failed to parse value for environment key: «TEST_KEY», cause: Invalid integer"
    );

    let key = "TEST_KEY";
    let error = Error::KeyNotFound(key);

    assert_eq!(error.message(), "Environment key not found: «TEST_KEY»");
}

#[test]
fn lookup_finds_first_match() {
    let env = env_of(&[("A", "one"), ("A", "two"), ("B", "three")]);
    let a: String = lookup("A", &env).unwrap();
    assert_eq!(a, "one");
    let b: String = lookup("B", &env).unwrap();
    assert_eq!(b, "three");
}

#[test]
fn lookup_missing_key_reports_key_not_found() {
    let env = env_of(&[("A", "one")]);
    let r: Result<String, Error> = lookup("MISSING", &env);
    match r {
        Err(Error::KeyNotFound(k)) => assert_eq!(k, "MISSING"),
        other => panic!("expected KeyNotFound, got {:?}", other),
    }
}

#[test]
fn lookup_parses_numbers() {
    let env = env_of(&[("PORT", "8080"), ("ZEROS", "007"), ("BIG", "65535")]);
    let p: u16 = lookup("PORT", &env).unwrap();
    assert_eq!(p, 8080);
    let z: u16 = lookup("ZEROS", &env).unwrap();
    assert_eq!(z, 7);
    let b: u16 = lookup("BIG", &env).unwrap();
    assert_eq!(b, 65535);
}

#[test]
fn lookup_rejects_bad_numbers() {
    let env = env_of(&[("PORT", "not-a-number"), ("TOO_BIG", "65536"), ("EMPTY", "")]);
    for key in ["PORT", "TOO_BIG", "EMPTY"] {
        let r: Result<u16, Error> = lookup(key, &env);
        match r {
            Err(Error::Parse { key: k, .. }) => assert_eq!(k, key),
            other => panic!("expected Parse error for {}, got {:?}", key, other),
        }
    }
}

#[test]
fn lookup_optional_distinguishes_absent_from_bad() {
    let env = env_of(&[("N", "42"), ("BAD", "4x2")]);
    let present: Option<usize> = lookup_optional("N", &env).unwrap();
    assert_eq!(present, Some(42));
    let absent: Option<usize> = lookup_optional("MISSING", &env).unwrap();
    assert_eq!(absent, None);
    let bad: Result<Option<usize>, Error> = lookup_optional("BAD", &env);
    assert!(matches!(bad, Err(Error::Parse { .. })));
}

#[test]
fn build_database_setting_reads_every_field() {
    let env = env_of(&[
        ("DATABASE_USERNAME", "carai"),
        ("DATABASE_PASSWORD", "pg-password"),
        ("DATABASE_HOST", "127.0.0.1"),
        ("DATABASE_PORT", "5432"),
        ("DATABASE_NAME", "carai_db"),
    ]);
    let db = build_database_setting(&env).unwrap();
    assert_eq!(db.username, "carai");
    assert_eq!(db.password, "pg-password");
    assert_eq!(db.host, "127.0.0.1");
    assert_eq!(db.port, 5432);
    assert_eq!(db.name, "carai_db");
}

#[test]
fn build_database_setting_fails_on_missing_key() {
    let env = env_of(&[("DATABASE_USERNAME", "carai")]);
    assert!(matches!(
        build_database_setting(&env),
        Err(Error::KeyNotFound("DATABASE_PASSWORD"))
    ));
}

#[test]
fn build_server_setting_reads_every_field() {
    let env = env_of(&[
        ("SERVER_LISTEN_ADDR", "0.0.0.0"),
        ("SERVER_LISTEN_PORT", "8000"),
        ("SERVER_WORKER_THREADS", "4"),
    ]);
    let s = build_server_setting(&env).unwrap();
    assert_eq!(s.listen_addr, "0.0.0.0");
    assert_eq!(s.listen_port, 8000);
    assert_eq!(s.worker_threads, 4);
}

#[test]
fn build_settings_needs_both_parts() {
    let env = env_of(&[
        ("DATABASE_USERNAME", "u"),
        ("DATABASE_PASSWORD", "p"),
        ("DATABASE_HOST", "h"),
        ("DATABASE_PORT", "1"),
        ("DATABASE_NAME", "n"),
        ("SERVER_LISTEN_ADDR", "a"),
        ("SERVER_LISTEN_PORT", "2"),
        ("SERVER_WORKER_THREADS", "3"),
    ]);
    let settings = build_settings(&env).unwrap();
    assert_eq!(settings.database.port, 1);
    assert_eq!(settings.server.worker_threads, 3);

    let partial = env_of(&[("DATABASE_USERNAME", "u")]);
    assert!(build_settings(&partial).is_err());
}

#[test]
fn space_seperated_string_splits_words() {
    let words = space_seperated_string("alpha beta  gamma".to_string());
    assert_eq!(words, vec!["alpha", "beta", "gamma"]);
    assert_eq!(space_seperated_string("".to_string()), Vec::<String>::new());
    assert_eq!(space_seperated_string("   ".to_string()), Vec::<String>::new());
    assert_eq!(space_seperated_string("one".to_string()), vec!["one"]);
    assert_eq!(space_seperated_string("\ttabbed words\n".to_string()), vec!["tabbed", "words"]);
    // Only spaces separate: a tab inside a piece stays part of the word.
    assert_eq!(space_seperated_string("a\tb c".to_string()), vec!["a\tb", "c"]);
}
