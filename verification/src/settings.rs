//! Typed lookup of configuration values from an environment snapshot. The
//! snapshot itself comes from the program's edge; here live the lookup and
//! parsing rules and the errors they report.
use vstd::prelude::*;

verus! {

/// Why a configuration value could not be produced.
#[derive(Debug)]
pub enum Error {
    KeyNotFound(&'static str),
    Parse { key: &'static str, cause: String },
}

impl Error {
    /// The report text for this error.
    pub open spec fn spec_message(&self) -> Seq<char> {
        match self {
            Error::KeyNotFound(key) => "Environment key not found: \u{ab}"@ + key@ + "\u{bb}"@,
            Error::Parse { key, cause } => "Failed to parse value for environment key: \u{ab}"@
                + key@ + "\u{bb}, cause: "@ + cause@,
        }
    }

    /// Renders the error as one line of text.
    pub fn message(&self) -> (r: String)
        ensures
            r@ == self.spec_message(),
    {
        match self {
            Error::KeyNotFound(key) => {
                let mut s = "Environment key not found: \u{ab}".to_owned();
                s.append(key);
                s.append("\u{bb}");
                s
            },
            Error::Parse { key, cause } => {
                let mut s = "Failed to parse value for environment key: \u{ab}".to_owned();
                s.append(key);
                s.append("\u{bb}, cause: ");
                s.append(cause.as_str());
                s
            },
        }
    }
}

/// True exactly when the two texts hold the same characters.
pub fn str_eq(a: &str, b: &str) -> (r: bool)
    ensures
        r == (a@ == b@),
{
    let na = a.unicode_len();
    let nb = b.unicode_len();
    if na != nb {
        return false;
    }
    let mut i: usize = 0;
    while i < na
        invariant
            i <= na == a@.len() == b@.len(),
            forall|k: int| 0 <= k < i ==> a@[k] == b@[k],
        decreases na - i,
    {
        if a.get_char(i) != b.get_char(i) {
            return false;
        }
        i += 1;
    }
    assert(a@ =~= b@);
    true
}

/// A snapshot of the process environment: key and value pairs, earlier
/// entries shadowing later ones.
#[derive(Debug)]
pub struct Environment {
    pub entries: Vec<(String, String)>,
}

/// The value of the first entry whose key is `key`.
pub open spec fn spec_env_lookup(entries: Seq<(String, String)>, key: Seq<char>) -> Option<
    Seq<char>,
>
    decreases entries.len(),
{
    if entries.len() == 0 {
        None
    } else if entries[0].0@ == key {
        Some(entries[0].1@)
    } else {
        spec_env_lookup(entries.drop_first(), key)
    }
}

impl Environment {
    /// The value stored under `key`, if any.
    pub open spec fn spec_lookup(&self, key: Seq<char>) -> Option<Seq<char>> {
        spec_env_lookup(self.entries@, key)
    }

    /// An empty snapshot.
    pub fn new() -> (r: Environment)
        ensures
            r.entries@ =~= Seq::<(String, String)>::empty(),
    {
        Environment { entries: Vec::new() }
    }

    /// Appends a pair; earlier pairs keep shadowing it.
    pub fn push(&mut self, key: String, value: String)
        ensures
            final(self).entries@ == old(self).entries@.push((key, value)),
    {
        self.entries.push((key, value));
    }

    /// Looks the raw text of `key` up.
    pub fn get(&self, key: &str) -> (r: Option<&String>)
        ensures
            match r {
                Some(v) => self.spec_lookup(key@) == Some(v@),
                None => self.spec_lookup(key@) is None,
            },
    {
        let n = self.entries.len();
        let mut i: usize = 0;
        proof {
            assert(self.entries@.skip(0) =~= self.entries@);
        }
        while i < n
            invariant
                i <= n == self.entries@.len(),
                spec_env_lookup(self.entries@.skip(i as int), key@) == spec_env_lookup(
                    self.entries@,
                    key@,
                ),
                forall|k: int| 0 <= k < i ==> self.entries@[k].0@ != key@,
            decreases n - i,
        {
            proof {
                assert(self.entries@.skip(i as int).drop_first() =~= self.entries@.skip(i + 1));
            }
            if str_eq(self.entries[i].0.as_str(), key) {
                return Some(&self.entries[i].1);
            }
            i += 1;
        }
        proof {
            assert(self.entries@.skip(n as int) =~= Seq::<(String, String)>::empty());
        }
        None
    }
}

/// The value of a decimal digit, `None` for any other character.
pub open spec fn dec_char_val(c: char) -> Option<u8> {
    let u = c as u32;
    if 48 <= u <= 57 {
        Some((u - 48) as u8)
    } else {
        None
    }
}

/// The value of a sequence of decimal digits; `None` when a character is
/// not a digit. The empty sequence counts as zero here; parsers reject it
/// separately.
pub open spec fn spec_dec_digits(s: Seq<char>) -> Option<int>
    decreases s.len(),
{
    if s.len() == 0 {
        Some(0)
    } else {
        match (spec_dec_digits(s.drop_last()), dec_char_val(s.last())) {
            (Some(hi), Some(d)) => Some(hi * 10 + d),
            _ => None,
        }
    }
}

/// What parsing a decimal numeral yields: its value, for a non-empty run of
/// digits, and nothing otherwise. The grammar is digits only — a leading
/// sign, which Rust's own numeric parsing would accept, is rejected.
pub open spec fn spec_parse_dec(s: Seq<char>) -> Option<int> {
    if s.len() == 0 {
        None
    } else {
        spec_dec_digits(s)
    }
}

proof fn lemma_dec_nonneg(s: Seq<char>)
    ensures
        spec_dec_digits(s) matches Some(v) ==> v >= 0,
    decreases s.len(),
{
    if s.len() > 0 {
        lemma_dec_nonneg(s.drop_last());
    }
}

/// Every digit prefix of a readable numeral reads as a value no larger than
/// the whole.
proof fn lemma_dec_prefix(s: Seq<char>, k: int)
    requires
        0 <= k <= s.len(),
        spec_dec_digits(s) is Some,
    ensures
        spec_dec_digits(s.subrange(0, k)) matches Some(pv) && 0 <= pv <= spec_dec_digits(
            s,
        ).unwrap(),
    decreases s.len() - k,
{
    lemma_dec_nonneg(s);
    if k == s.len() {
        assert(s.subrange(0, k) =~= s);
    } else {
        lemma_dec_prefix(s, k + 1);
        let t = s.subrange(0, k + 1);
        assert(t.drop_last() =~= s.subrange(0, k));
        lemma_dec_nonneg(t.drop_last());
    }
}

/// Once a prefix fails to read as digits, every extension fails too.
proof fn lemma_dec_prefix_none(s: Seq<char>, mid: int, to: int)
    requires
        0 <= mid <= to <= s.len(),
        spec_dec_digits(s.subrange(0, mid)) is None,
    ensures
        spec_dec_digits(s.subrange(0, to)) is None,
    decreases to - mid,
{
    if mid < to {
        let t = s.subrange(0, mid + 1);
        assert(t.drop_last() =~= s.subrange(0, mid));
        lemma_dec_prefix_none(s, mid + 1, to);
    }
}

/// Reads a decimal numeral no larger than `max` out of `s`.
pub fn parse_dec(s: &str, max: u64) -> (r: Option<u64>)
    ensures
        match r {
            Some(v) => spec_parse_dec(s@) == Some(v as int) && v <= max,
            None => spec_parse_dec(s@) is None || spec_parse_dec(s@).unwrap() > max,
        },
{
    let n = s.unicode_len();
    if n == 0 {
        return None;
    }
    let mut acc: u128 = 0;
    let mut i: usize = 0;
    proof {
        assert(s@.subrange(0, 0) =~= Seq::<char>::empty());
    }
    while i < n
        invariant
            i <= n == s@.len(),
            0 < n,
            acc <= u64::MAX,
            spec_dec_digits(s@.subrange(0, i as int)) == Some(acc as int),
        decreases n - i,
    {
        let c = s.get_char(i);
        let u = c as u32;
        if !(48 <= u && u <= 57) {
            proof {
                let t = s@.subrange(0, i + 1);
                assert(t.drop_last() =~= s@.subrange(0, i as int));
                assert(t.last() == c);
                lemma_dec_prefix_none(s@, i + 1, n as int);
                assert(s@.subrange(0, n as int) =~= s@);
            }
            return None;
        }
        let d = (u - 48) as u8;
        proof {
            let t = s@.subrange(0, i + 1);
            assert(t.drop_last() =~= s@.subrange(0, i as int));
            assert(t.last() == c);
        }
        acc = acc * 10 + (d as u128);
        i += 1;
        if acc > (u64::MAX as u128) {
            proof {
                if spec_dec_digits(s@) is Some {
                    lemma_dec_prefix(s@, i as int);
                    assert(s@.subrange(0, s@.len() as int) =~= s@);
                }
                assert(s@.subrange(0, n as int) =~= s@);
            }
            return None;
        }
    }
    proof {
        assert(s@.subrange(0, n as int) =~= s@);
    }
    if acc > (max as u128) {
        return None;
    }
    Some(acc as u64)
}

/// A type a configuration value can be read into.
pub trait FromEnv: Sized {
    /// Whether `s` reads as a value of this type.
    spec fn spec_parse_ok(s: Seq<char>) -> bool;

    /// Whether `v` is what `s` reads as.
    spec fn matches_parsed(s: Seq<char>, v: &Self) -> bool;

    /// Reads `s`; succeeds exactly on the texts `spec_parse_ok` admits.
    fn parse_env(s: &str) -> (r: Option<Self>)
        ensures
            r is Some <==> Self::spec_parse_ok(s@),
            r matches Some(v) ==> Self::matches_parsed(s@, &v),
    ;
}

impl FromEnv for String {
    open spec fn spec_parse_ok(s: Seq<char>) -> bool {
        true
    }

    open spec fn matches_parsed(s: Seq<char>, v: &String) -> bool {
        v@ == s
    }

    fn parse_env(s: &str) -> (r: Option<String>) {
        Some(s.to_owned())
    }
}

impl FromEnv for u16 {
    open spec fn spec_parse_ok(s: Seq<char>) -> bool {
        spec_parse_dec(s) matches Some(v) && v <= u16::MAX
    }

    open spec fn matches_parsed(s: Seq<char>, v: &u16) -> bool {
        spec_parse_dec(s) == Some(*v as int)
    }

    fn parse_env(s: &str) -> (r: Option<u16>) {
        match parse_dec(s, 65535) {
            Some(v) => Some(v as u16),
            None => None,
        }
    }
}

impl FromEnv for usize {
    open spec fn spec_parse_ok(s: Seq<char>) -> bool {
        spec_parse_dec(s) matches Some(v) && v <= usize::MAX
    }

    open spec fn matches_parsed(s: Seq<char>, v: &usize) -> bool {
        spec_parse_dec(s) == Some(*v as int)
    }

    fn parse_env(s: &str) -> (r: Option<usize>) {
        match parse_dec(s, usize::MAX as u64) {
            Some(v) => Some(v as usize),
            None => None,
        }
    }
}

/// Reads the value under `key` as a `T`: the key must be present and its
/// text must parse.
pub fn lookup<T: FromEnv>(key: &'static str, environment: &Environment) -> (r: Result<T, Error>)
    ensures
        environment.spec_lookup(key@) is None ==> (r matches Err(e) && e matches
            Error::KeyNotFound(k) && k@ == key@),
        environment.spec_lookup(key@) matches Some(v) ==> {
            &&& r is Ok <==> T::spec_parse_ok(v)
            &&& (r matches Ok(x) ==> T::matches_parsed(v, &x))
            &&& (r matches Err(e) ==> e matches Error::Parse { key: k, cause } && k@ == key@
                && cause@ == "invalid value"@)
        },
{
    match environment.get(key) {
        None => Err(Error::KeyNotFound(key)),
        Some(value) => match T::parse_env(value.as_str()) {
            Some(x) => Ok(x),
            None => Err(Error::Parse { key, cause: "invalid value".to_owned() }),
        },
    }
}

/// Reads the value under `key` as a `T` if the key is present at all; a
/// present key whose text does not parse is still an error.
pub fn lookup_optional<T: FromEnv>(key: &'static str, environment: &Environment) -> (r: Result<
    Option<T>,
    Error,
>)
    ensures
        environment.spec_lookup(key@) is None ==> (r matches Ok(o) && o is None),
        environment.spec_lookup(key@) matches Some(v) ==> {
            &&& (r matches Ok(o) ==> o matches Some(x) && T::matches_parsed(v, &x))
            &&& (r is Ok <==> T::spec_parse_ok(v))
            &&& (r matches Err(e) ==> e matches Error::Parse { key: k, cause } && k@ == key@
                && cause@ == "invalid value"@)
        },
{
    match environment.get(key) {
        None => Ok(None),
        Some(value) => match T::parse_env(value.as_str()) {
            Some(x) => Ok(Some(x)),
            None => Err(Error::Parse { key, cause: "invalid value".to_owned() }),
        },
    }
}

/// Everything the program reads from its environment at startup.
#[derive(Clone, Debug)]
pub struct Settings {
    pub database: DatabaseSetting,
    pub server: ServerSetting,
}

/// How to reach the database.
#[derive(Clone, Debug)]
pub struct DatabaseSetting {
    pub username: String,
    pub password: String,
    pub host: String,
    pub port: u16,
    pub name: String,
}

/// Where and how to serve.
#[derive(Clone, Debug)]
pub struct ServerSetting {
    pub listen_addr: String,
    pub listen_port: u16,
    pub worker_threads: usize,
}

/// Whether the environment holds everything a `DatabaseSetting` needs.
pub open spec fn spec_db_ok(env: &Environment) -> bool {
    &&& env.spec_lookup("DATABASE_USERNAME"@) is Some
    &&& env.spec_lookup("DATABASE_PASSWORD"@) is Some
    &&& env.spec_lookup("DATABASE_HOST"@) is Some
    &&& (env.spec_lookup("DATABASE_PORT"@) matches Some(p) && <u16 as FromEnv>::spec_parse_ok(p))
    &&& env.spec_lookup("DATABASE_NAME"@) is Some
}

/// Whether `d` holds exactly what the environment says.
pub open spec fn spec_db_matches(env: &Environment, d: &DatabaseSetting) -> bool {
    &&& env.spec_lookup("DATABASE_USERNAME"@) == Some(d.username@)
    &&& env.spec_lookup("DATABASE_PASSWORD"@) == Some(d.password@)
    &&& env.spec_lookup("DATABASE_HOST"@) == Some(d.host@)
    &&& (env.spec_lookup("DATABASE_PORT"@) matches Some(p) && <u16 as FromEnv>::matches_parsed(
        p,
        &d.port,
    ))
    &&& env.spec_lookup("DATABASE_NAME"@) == Some(d.name@)
}

/// Whether the environment holds everything a `ServerSetting` needs.
pub open spec fn spec_server_ok(env: &Environment) -> bool {
    &&& env.spec_lookup("SERVER_LISTEN_ADDR"@) is Some
    &&& (env.spec_lookup("SERVER_LISTEN_PORT"@) matches Some(p)
        && <u16 as FromEnv>::spec_parse_ok(p))
    &&& (env.spec_lookup("SERVER_WORKER_THREADS"@) matches Some(w)
        && <usize as FromEnv>::spec_parse_ok(w))
}

/// Whether `s` holds exactly what the environment says.
pub open spec fn spec_server_matches(env: &Environment, s: &ServerSetting) -> bool {
    &&& env.spec_lookup("SERVER_LISTEN_ADDR"@) == Some(s.listen_addr@)
    &&& (env.spec_lookup("SERVER_LISTEN_PORT"@) matches Some(p)
        && <u16 as FromEnv>::matches_parsed(p, &s.listen_port))
    &&& (env.spec_lookup("SERVER_WORKER_THREADS"@) matches Some(w)
        && <usize as FromEnv>::matches_parsed(w, &s.worker_threads))
}

/// Whether `e` reports the failure `f`: a parse failure of the key where
/// `f.1` holds, an absent key otherwise.
pub open spec fn error_names_failure(e: &Error, f: (Seq<char>, bool)) -> bool {
    if f.1 {
        e matches Error::Parse { key: k, cause } && k@ == f.0 && cause@ == "invalid value"@
    } else {
        e matches Error::KeyNotFound(k) && k@ == f.0
    }
}

/// The first failing lookup for the database settings, if any: its key, and
/// whether it fails by parsing rather than by absence.
pub open spec fn spec_db_failure(env: &Environment) -> Option<(Seq<char>, bool)> {
    if env.spec_lookup("DATABASE_USERNAME"@) is None {
        Some(("DATABASE_USERNAME"@, false))
    } else if env.spec_lookup("DATABASE_PASSWORD"@) is None {
        Some(("DATABASE_PASSWORD"@, false))
    } else if env.spec_lookup("DATABASE_HOST"@) is None {
        Some(("DATABASE_HOST"@, false))
    } else if env.spec_lookup("DATABASE_PORT"@) is None {
        Some(("DATABASE_PORT"@, false))
    } else if !<u16 as FromEnv>::spec_parse_ok(env.spec_lookup("DATABASE_PORT"@).unwrap()) {
        Some(("DATABASE_PORT"@, true))
    } else if env.spec_lookup("DATABASE_NAME"@) is None {
        Some(("DATABASE_NAME"@, false))
    } else {
        None
    }
}

/// The first failing lookup for the server settings, if any.
pub open spec fn spec_server_failure(env: &Environment) -> Option<(Seq<char>, bool)> {
    if env.spec_lookup("SERVER_LISTEN_ADDR"@) is None {
        Some(("SERVER_LISTEN_ADDR"@, false))
    } else if env.spec_lookup("SERVER_LISTEN_PORT"@) is None {
        Some(("SERVER_LISTEN_PORT"@, false))
    } else if !<u16 as FromEnv>::spec_parse_ok(env.spec_lookup("SERVER_LISTEN_PORT"@).unwrap()) {
        Some(("SERVER_LISTEN_PORT"@, true))
    } else if env.spec_lookup("SERVER_WORKER_THREADS"@) is None {
        Some(("SERVER_WORKER_THREADS"@, false))
    } else if !<usize as FromEnv>::spec_parse_ok(
        env.spec_lookup("SERVER_WORKER_THREADS"@).unwrap(),
    ) {
        Some(("SERVER_WORKER_THREADS"@, true))
    } else {
        None
    }
}

/// Reads the database settings; succeeds exactly when every key is present
/// and the port parses. On failure the error names the first failing key,
/// in the order the keys are read.
pub fn build_database_setting(environment: &Environment) -> (r: Result<DatabaseSetting, Error>)
    ensures
        r is Ok <==> spec_db_ok(environment),
        r matches Ok(d) ==> spec_db_matches(environment, &d),
        r matches Err(e) ==> (spec_db_failure(environment) matches Some(f) && error_names_failure(
            &e,
            f,
        )),
{
    let username = lookup::<String>("DATABASE_USERNAME", environment)?;
    let password = lookup::<String>("DATABASE_PASSWORD", environment)?;
    let host = lookup::<String>("DATABASE_HOST", environment)?;
    let port = lookup::<u16>("DATABASE_PORT", environment)?;
    let name = lookup::<String>("DATABASE_NAME", environment)?;
    Ok(DatabaseSetting { username, password, host, port, name })
}

/// Reads the server settings; succeeds exactly when every key is present
/// and the numbers parse. On failure the error names the first failing key,
/// in the order the keys are read.
pub fn build_server_setting(environment: &Environment) -> (r: Result<ServerSetting, Error>)
    ensures
        r is Ok <==> spec_server_ok(environment),
        r matches Ok(s) ==> spec_server_matches(environment, &s),
        r matches Err(e) ==> (spec_server_failure(environment) matches Some(f)
            && error_names_failure(&e, f)),
{
    let listen_addr = lookup::<String>("SERVER_LISTEN_ADDR", environment)?;
    let listen_port = lookup::<u16>("SERVER_LISTEN_PORT", environment)?;
    let worker_threads = lookup::<usize>("SERVER_WORKER_THREADS", environment)?;
    Ok(ServerSetting { listen_addr, listen_port, worker_threads })
}

/// Reads the whole settings bundle; succeeds exactly when both parts do.
/// On failure the error names the first failing key, database keys first.
pub fn build_settings(environment: &Environment) -> (r: Result<Settings, Error>)
    ensures
        r is Ok <==> spec_db_ok(environment) && spec_server_ok(environment),
        r matches Ok(s) ==> spec_db_matches(environment, &s.database) && spec_server_matches(
            environment,
            &s.server,
        ),
        r matches Err(e) ==> (match spec_db_failure(environment) {
            Some(f) => error_names_failure(&e, f),
            None => spec_server_failure(environment) matches Some(f) && error_names_failure(
                &e,
                f,
            ),
        }),
{
    let database = build_database_setting(environment)?;
    let server = build_server_setting(environment)?;
    Ok(Settings { database, server })
}

/// ASCII whitespace, as word trimming recognises it.
pub open spec fn is_ws_char(c: char) -> bool {
    c == ' ' || c == '\t' || c == '\n' || c == '\r'
}

fn is_ws_exec(c: char) -> (r: bool)
    ensures
        r == is_ws_char(c),
{
    c == ' ' || c == '\t' || c == '\n' || c == '\r'
}

/// `s` without its leading whitespace.
pub open spec fn spec_trim_front(s: Seq<char>) -> Seq<char>
    decreases s.len(),
{
    if s.len() > 0 && is_ws_char(s[0]) {
        spec_trim_front(s.drop_first())
    } else {
        s
    }
}

/// `s` without its trailing whitespace.
pub open spec fn spec_trim_back(s: Seq<char>) -> Seq<char>
    decreases s.len(),
{
    if s.len() > 0 && is_ws_char(s.last()) {
        spec_trim_back(s.drop_last())
    } else {
        s
    }
}

/// `s` without whitespace at either end.
pub open spec fn spec_trim(s: Seq<char>) -> Seq<char> {
    spec_trim_back(spec_trim_front(s))
}

proof fn lemma_trim_front_at(s: Seq<char>, a: int)
    requires
        0 <= a <= s.len(),
        forall|k: int| 0 <= k < a ==> is_ws_char(s[k]),
        a < s.len() ==> !is_ws_char(s[a]),
    ensures
        spec_trim_front(s) == s.skip(a),
    decreases a,
{
    if a == 0 {
        assert(spec_trim_front(s) =~= s.skip(0));
    } else {
        let t = s.drop_first();
        assert forall|k: int| 0 <= k < a - 1 implies is_ws_char(t[k]) by {
            assert(t[k] == s[k + 1]);
        }
        lemma_trim_front_at(t, a - 1);
        assert(t.skip(a - 1) =~= s.skip(a));
    }
}

proof fn lemma_trim_back_at(s: Seq<char>, b: int)
    requires
        0 <= b <= s.len(),
        forall|k: int| b <= k < s.len() ==> is_ws_char(s[k]),
        b > 0 ==> !is_ws_char(s[b - 1]),
    ensures
        spec_trim_back(s) == s.take(b),
    decreases s.len() - b,
{
    if b == s.len() {
        assert(spec_trim_back(s) =~= s.take(b));
    } else {
        let t = s.drop_last();
        lemma_trim_back_at(t, b);
        assert(t.take(b) =~= s.take(b));
    }
}

/// Drops the whitespace at both ends of `s`.
fn trim_vec(s: &Vec<char>) -> (r: Vec<char>)
    ensures
        r@ == spec_trim(s@),
{
    let n = s.len();
    let mut a: usize = 0;
    while a < n && is_ws_exec(s[a])
        invariant
            a <= n == s@.len(),
            forall|k: int| 0 <= k < a ==> is_ws_char(s@[k]),
        decreases n - a,
    {
        a += 1;
    }
    let mut b: usize = n;
    while b > a && is_ws_exec(s[b - 1])
        invariant
            a <= b <= n == s@.len(),
            forall|k: int| b <= k < n ==> is_ws_char(s@[k]),
        decreases b,
    {
        b -= 1;
    }
    let r = crate::codec::sub_vec(s, a, b);
    proof {
        lemma_trim_front_at(s@, a as int);
        let t = s@.skip(a as int);
        assert forall|k: int| b - a <= k < t.len() implies is_ws_char(t[k]) by {
            assert(t[k] == s@[a + k]);
        }
        if b > a {
            assert(t[b - a - 1] == s@[b - 1]);
        }
        lemma_trim_back_at(t, b - a);
        assert(r@ =~= t.take(b - a));
    }
    r
}

/// Whatever a finished piece contributes: its trimmed text, or nothing
/// when only whitespace remains of it.
pub open spec fn spec_emit(cur: Seq<char>) -> Seq<Seq<char>> {
    if spec_trim(cur).len() == 0 {
        Seq::empty()
    } else {
        seq![spec_trim(cur)]
    }
}

/// The words of `s` with the piece gathered so far in `cur`: pieces are cut
/// at single spaces, then trimmed of whitespace at their ends, and empty
/// pieces are dropped.
pub open spec fn spec_words_acc(s: Seq<char>, cur: Seq<char>) -> Seq<Seq<char>>
    decreases s.len(),
{
    if s.len() == 0 {
        spec_emit(cur)
    } else if s[0] == ' ' {
        spec_emit(cur) + spec_words_acc(s.drop_first(), Seq::empty())
    } else {
        spec_words_acc(s.drop_first(), cur.push(s[0]))
    }
}

/// The space-separated words of `s`, in order: each piece between spaces is
/// trimmed of whitespace at its ends and kept when anything remains.
pub open spec fn spec_words(s: Seq<char>) -> Seq<Seq<char>> {
    spec_words_acc(s, Seq::empty())
}

/// Splits a text on spaces into words, trimming each piece of whitespace at
/// its ends and dropping pieces that were nothing but whitespace. Only the
/// four ASCII whitespace characters are trimmed.
pub fn space_seperated_string(s: String) -> (r: Vec<String>)
    ensures
        r.deep_view() == spec_words(s@),
{
    let chars = crate::codec::str_to_chars(s.as_str());
    let n = chars.len();
    let mut out: Vec<String> = Vec::new();
    let mut cur: Vec<char> = Vec::new();
    let mut i: usize = 0;
    proof {
        assert(chars@.skip(0) =~= chars@);
        assert(out.deep_view() =~= Seq::<Seq<char>>::empty());
    }
    while i < n
        invariant
            i <= n == chars@.len(),
            chars@ == s@,
            spec_words(s@) == out.deep_view() + spec_words_acc(chars@.skip(i as int), cur@),
        decreases n - i,
    {
        let c = chars[i];
        proof {
            assert(chars@.skip(i as int)[0] == c);
            assert(chars@.skip(i as int).drop_first() =~= chars@.skip(i + 1));
        }
        if c == ' ' {
            let ghost rest = spec_words_acc(chars@.skip(i + 1), Seq::empty());
            proof {
                assert(spec_words_acc(chars@.skip(i as int), cur@) == spec_emit(cur@) + rest);
            }
            let trimmed = trim_vec(&cur);
            if trimmed.len() > 0 {
                let ghost out0 = out.deep_view();
                let word = crate::codec::chars_to_string(&trimmed);
                out.push(word);
                proof {
                    assert(out.deep_view() =~= out0.push(word@));
                    assert(out0 + (seq![word@] + rest) =~= out.deep_view() + rest);
                }
            } else {
                proof {
                    assert(out.deep_view() + (Seq::<Seq<char>>::empty() + rest) =~= out.deep_view()
                        + rest);
                }
            }
            cur = Vec::new();
            proof {
                assert(cur@ =~= Seq::<char>::empty());
            }
        } else {
            let ghost cur0 = cur@;
            cur.push(c);
            proof {
                assert(spec_words_acc(chars@.skip(i as int), cur0) == spec_words_acc(
                    chars@.skip(i + 1),
                    cur0.push(c),
                ));
            }
        }
        i += 1;
    }
    proof {
        assert(chars@.skip(n as int) =~= Seq::<char>::empty());
    }
    let trimmed = trim_vec(&cur);
    if trimmed.len() > 0 {
        let ghost out0 = out.deep_view();
        let word = crate::codec::chars_to_string(&trimmed);
        out.push(word);
        proof {
            assert(out.deep_view() =~= out0.push(word@));
            assert(out0 + seq![word@] =~= out.deep_view());
        }
    } else {
        proof {
            assert(out.deep_view() + Seq::<Seq<char>>::empty() =~= out.deep_view());
        }
    }
    out
}

} // verus!
