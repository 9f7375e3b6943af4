//! Long-term memory: the kinds of memories and the `/remember`,
//! `/forget` and `/memory` commands.
use vstd::prelude::*;
use crate::num::{dec_int, parse_i64, parse_i64_exec, push_i64};
use crate::text::{
    append_str, chars_eq_str, chars_of, join, join_chars, slice_of, split_words, starts_with,
    starts_with_str, string_of, trim, trim_chars, views, words,
};

verus! {

/// What a memory is about.
#[derive(Debug, Clone, Copy, PartialEq, Eq, Structural)]
pub enum Kind {
    User,
    Feedback,
    Project,
    Reference,
}

/// Where a memory came from.
#[derive(Debug, Clone, Copy, PartialEq, Eq, Structural)]
pub enum Source {
    Extracted,
    UserCommand,
}

/// Which database a memory lives in.
#[derive(Debug, Clone, Copy, PartialEq, Eq, Structural)]
pub enum Scope {
    Global,
    Project,
}

/// A curated memory.
pub struct Memory {
    pub id: i64,
    pub kind: Kind,
    pub content: String,
    pub source: Source,
    pub created_at: i64,
    pub updated_at: i64,
    pub last_used_at: i64,
    pub use_count: i64,
}

/// One archived piece of a conversation.
pub struct Chunk {
    pub id: i64,
    pub session_id: i64,
    pub seq: i64,
    pub role: String,
    pub content: String,
    pub token_count: i64,
    pub created_at: i64,
}

/// Where the two memory databases live.
pub struct Paths {
    pub global_db: String,
    pub project_db: String,
}

/// `Path::join` with a relative part: the part after the base, with a `/`
/// between them unless the base is empty or already ends with one.
pub open spec fn join_path(base: Seq<char>, part: Seq<char>) -> Seq<char> {
    if base.len() == 0 {
        part
    } else if base.last() == '/' {
        base + part
    } else {
        base + "/"@ + part
    }
}

fn join_path_exec(base: &str, part: &str) -> (r: String)
    ensures
        r@ == join_path(base@, part@),
{
    let b = chars_of(base);
    let mut s = base.to_owned();
    if b.len() > 0 && b[b.len() - 1] != '/' {
        append_str(&mut s, "/");
    }
    append_str(&mut s, part);
    proof {
        reveal_strlit("/");
        if b.len() == 0 {
            assert(s@ =~= part@);
        }
    }
    s
}

/// The global database under the user's configuration directory (the
/// current directory when there is none), and the project database under
/// `.llama-chat` in the project.
pub open spec fn default_paths_spec(config_dir: Option<Seq<char>>, project_dir: Seq<char>) -> (Seq<char>, Seq<char>) {
    let base = match config_dir {
        Some(d) => d,
        None => "."@,
    };
    (
        join_path(join_path(base, "llama-chat"@), "memory.db"@),
        join_path(join_path(project_dir, ".llama-chat"@), "memory.db"@),
    )
}

/// Where the databases live, given the user's configuration directory.
pub fn default_paths(config_dir: Option<String>, project_dir: &str) -> (r: Paths)
    ensures
        (r.global_db@, r.project_db@) == default_paths_spec(
            match config_dir {
                Some(d) => Some(d@),
                None => None,
            },
            project_dir@,
        ),
{
    let base = match config_dir {
        Some(d) => d,
        None => ".".to_owned(),
    };
    let g = join_path_exec(base.as_str(), "llama-chat");
    let global_db = join_path_exec(g.as_str(), "memory.db");
    let p = join_path_exec(project_dir, ".llama-chat");
    let project_db = join_path_exec(p.as_str(), "memory.db");
    Paths { global_db, project_db }
}

pub open spec fn kind_name(k: Kind) -> Seq<char> {
    match k {
        Kind::User => "user"@,
        Kind::Feedback => "feedback"@,
        Kind::Project => "project"@,
        Kind::Reference => "reference"@,
    }
}

pub open spec fn kind_from_name(s: Seq<char>) -> Option<Kind> {
    if s == "user"@ {
        Some(Kind::User)
    } else if s == "feedback"@ {
        Some(Kind::Feedback)
    } else if s == "project"@ {
        Some(Kind::Project)
    } else if s == "reference"@ {
        Some(Kind::Reference)
    } else {
        None
    }
}

pub open spec fn scope_name(s: Scope) -> Seq<char> {
    match s {
        Scope::Global => "global"@,
        Scope::Project => "project"@,
    }
}

impl Kind {
    /// The name stored in the database.
    pub fn as_str(self) -> (r: &'static str)
        ensures
            r@ == kind_name(self),
    {
        match self {
            Kind::User => "user",
            Kind::Feedback => "feedback",
            Kind::Project => "project",
            Kind::Reference => "reference",
        }
    }

    /// The kind with the given name.
    pub fn parse(s: &str) -> (r: Option<Kind>)
        ensures
            r == kind_from_name(s@),
    {
        let v = chars_of(s);
        if chars_eq_str(&v, "user") {
            Some(Kind::User)
        } else if chars_eq_str(&v, "feedback") {
            Some(Kind::Feedback)
        } else if chars_eq_str(&v, "project") {
            Some(Kind::Project)
        } else if chars_eq_str(&v, "reference") {
            Some(Kind::Reference)
        } else {
            None
        }
    }
}

impl Source {
    /// The name stored in the database.
    pub fn as_str(self) -> (r: &'static str)
        ensures
            r@ == match self {
                Source::Extracted => "extracted"@,
                Source::UserCommand => "user_command"@,
            },
    {
        match self {
            Source::Extracted => "extracted",
            Source::UserCommand => "user_command",
        }
    }
}

/// Naming a kind and reading the name back gives the kind.
pub proof fn law_kind_name_roundtrip(k: Kind)
    ensures
        kind_from_name(kind_name(k)) == Some(k),
{
    reveal_strlit("user");
    reveal_strlit("feedback");
    reveal_strlit("project");
    reveal_strlit("reference");
    assert("user"@.len() == 4);
    assert("feedback"@.len() == 8);
    assert("project"@.len() == 7);
    assert("reference"@.len() == 9);
}

// ───────────────────────── commands ─────────────────────────

/// A parsed memory command.
#[allow(inconsistent_fields)]
#[derive(Debug, PartialEq, Eq)]
pub enum Command {
    Remember { content: String, scope: Scope, kind: Kind },
    RememberThis { scope: Scope, kind: Kind },
    Forget { id: i64, scope: Scope },
    List { scope: Option<Scope>, limit: u64 },
    Reindex,
    Accept,
    Disable,
}

/// The spec-level value of a command.
#[allow(inconsistent_fields)]
pub enum CommandSpec {
    Remember { content: Seq<char>, scope: Scope, kind: Kind },
    RememberThis { scope: Scope, kind: Kind },
    Forget { id: i64, scope: Scope },
    List { scope: Option<Scope>, limit: u64 },
    Reindex,
    Accept,
    Disable,
}

impl Command {
    pub open spec fn view(&self) -> CommandSpec {
        match self {
            Command::Remember { content, scope, kind } => CommandSpec::Remember {
                content: content@,
                scope: *scope,
                kind: *kind,
            },
            Command::RememberThis { scope, kind } => CommandSpec::RememberThis { scope: *scope, kind: *kind },
            Command::Forget { id, scope } => CommandSpec::Forget { id: *id, scope: *scope },
            Command::List { scope, limit } => CommandSpec::List { scope: *scope, limit: *limit },
            Command::Reindex => CommandSpec::Reindex,
            Command::Accept => CommandSpec::Accept,
            Command::Disable => CommandSpec::Disable,
        }
    }
}

pub open spec fn result_view(r: Result<Command, String>) -> Result<CommandSpec, Seq<char>> {
    match r {
        Ok(c) => Ok(c.view()),
        Err(e) => Err(e@),
    }
}

/// `s.split_once(' ')`, with `None` when there is no space.
pub open spec fn split_once_space(s: Seq<char>) -> Option<(Seq<char>, Seq<char>)> {
    match crate::text::find_char(s, ' ') {
        Some(i) => Some((s.take(i), s.skip(i + 1))),
        None => None,
    }
}

/// Command word and trimmed argument text of a command line.
pub open spec fn command_parts(line: Seq<char>) -> (Seq<char>, Seq<char>) {
    let l = trim(line);
    match split_once_space(l) {
        Some((c, r)) => (c, trim(r)),
        None => (l, seq![]),
    }
}

/// Options and words of `/remember` after reading `toks`.
pub open spec fn remember_scan(toks: Seq<Seq<char>>) -> Result<(Scope, Kind, Seq<Seq<char>>), Seq<char>>
    decreases toks.len(),
{
    if toks.len() == 0 {
        Ok((Scope::Project, Kind::Project, seq![]))
    } else {
        match remember_scan(toks.drop_last()) {
            Err(e) => Err(e),
            Ok((scope, kind, words)) => {
                let t = toks.last();
                if t == "--global"@ {
                    Ok((Scope::Global, kind, words))
                } else if t == "--project"@ {
                    Ok((Scope::Project, kind, words))
                } else if starts_with(t, "--kind="@) {
                    let k = t.skip(7);
                    match kind_from_name(k) {
                        Some(kk) => Ok((scope, kk, words)),
                        None => Err("unknown kind: "@ + k),
                    }
                } else {
                    Ok((scope, kind, words.push(t)))
                }
            },
        }
    }
}

/// What `/remember` (or `/remember-this` when `is_this`) parses to.
pub open spec fn remember_spec(rest: Seq<char>, is_this: bool) -> Result<CommandSpec, Seq<char>> {
    match remember_scan(words(rest)) {
        Err(e) => Err(e),
        Ok((scope, kind, ws)) => {
            let content = join(ws, seq![' ']);
            if is_this {
                Ok(CommandSpec::RememberThis { scope, kind })
            } else if content.len() == 0 {
                Err("usage: /remember [--global] [--kind=K] <text>"@)
            } else {
                Ok(CommandSpec::Remember { content, scope, kind })
            }
        },
    }
}

/// Scope and id of `/forget` after reading `toks`: the last token that
/// parses as a number is the id.
pub open spec fn forget_scan(toks: Seq<Seq<char>>) -> (Scope, Option<i64>)
    decreases toks.len(),
{
    if toks.len() == 0 {
        (Scope::Project, None)
    } else {
        let (scope, id) = forget_scan(toks.drop_last());
        let t = toks.last();
        if t == "--global"@ {
            (Scope::Global, id)
        } else if t == "--project"@ {
            (Scope::Project, id)
        } else {
            match parse_i64(t) {
                Some(v) => (scope, Some(v)),
                None => (scope, id),
            }
        }
    }
}

pub open spec fn forget_spec(rest: Seq<char>) -> Result<CommandSpec, Seq<char>> {
    let (scope, id) = forget_scan(words(rest));
    match id {
        Some(v) => Ok(CommandSpec::Forget { id: v, scope }),
        None => Err("usage: /forget [--global] <id>"@),
    }
}

/// The scope filter of `/memory list` after reading `toks`: the last
/// `--scope=` option decides.
pub open spec fn list_scope_scan(toks: Seq<Seq<char>>) -> Option<Scope>
    decreases toks.len(),
{
    if toks.len() == 0 {
        None
    } else {
        let t = toks.last();
        if starts_with(t, "--scope="@) {
            let v = t.skip(8);
            if v == "global"@ {
                Some(Scope::Global)
            } else if v == "project"@ {
                Some(Scope::Project)
            } else {
                None
            }
        } else {
            list_scope_scan(toks.drop_last())
        }
    }
}

/// How many memories `/memory` lists when no limit is given.
pub const LIST_LIMIT: u64 = 50;

/// `/memory [limit]`, `/memory list [--scope=S]`, `/memory reindex`,
/// `/memory accept`, `/memory disable`.
pub open spec fn memory_sub_spec(rest: Seq<char>) -> Result<CommandSpec, Seq<char>> {
    let (sub, tail) = match split_once_space(rest) {
        Some((s, t)) => (s, trim(t)),
        None => (rest, seq![]),
    };
    if sub.len() == 0 || sub == "list"@ {
        Ok(CommandSpec::List { scope: list_scope_scan(words(tail)), limit: LIST_LIMIT })
    } else if parse_i64(sub) is Some && parse_i64(sub).unwrap() >= 0 {
        Ok(CommandSpec::List { scope: list_scope_scan(words(tail)), limit: parse_i64(sub).unwrap() as u64 })
    } else if sub == "reindex"@ {
        Ok(CommandSpec::Reindex)
    } else if sub == "accept"@ {
        Ok(CommandSpec::Accept)
    } else if sub == "disable"@ {
        Ok(CommandSpec::Disable)
    } else {
        Err("unknown: /memory "@ + sub)
    }
}

/// What `parse` returns for a command line: `None` when the line is not a
/// memory command.
pub open spec fn parse_spec(line: Seq<char>) -> Option<Result<CommandSpec, Seq<char>>> {
    let (cmd, rest) = command_parts(line);
    if cmd == "/remember"@ {
        Some(remember_spec(rest, false))
    } else if cmd == "/remember-this"@ {
        Some(remember_spec(rest, true))
    } else if cmd == "/forget"@ {
        Some(forget_spec(rest))
    } else if cmd == "/memory"@ {
        Some(memory_sub_spec(rest))
    } else {
        None
    }
}

/// `split_once(' ')` over characters.
pub fn split_once_space_exec(v: &Vec<char>) -> (r: Option<(Vec<char>, Vec<char>)>)
    ensures
        match r {
            Some((a, b)) => split_once_space(v@) == Some((a@, b@)),
            None => split_once_space(v@) is None,
        },
{
    let sp = chars_of(" ");
    proof {
        reveal_strlit(" ");
        assert(sp@ =~= seq![' ']);
    }
    match crate::text::find_exec(v, &sp) {
        Some(i) => {
            assert(sp@.len() == 1);
            assert(i + sp@.len() <= v@.len());
            assert(i < v.len());
            let a = slice_of(v, 0, i);
            let b = slice_of(v, i + 1, v.len());
            assert(a@ =~= v@.take(i as int));
            assert(b@ =~= v@.skip(i + 1));
            Some((a, b))
        },
        None => None,
    }
}

/// Parse a full command line, e.g. "/remember --global --kind=feedback foo".
/// Returns None if the command is not ours (the app keeps dispatching).
pub fn parse(line: &str) -> (r: Option<Result<Command, String>>)
    ensures
        match r {
            Some(res) => parse_spec(line@) == Some(result_view(res)),
            None => parse_spec(line@) is None,
        },
{
    let all = chars_of(line);
    let l = trim_chars(&all);
    let (cmd, rest) = match split_once_space_exec(&l) {
        Some((c, r)) => (c, trim_chars(&r)),
        None => (l, Vec::new()),
    };
    assert(command_parts(line@) == (cmd@, rest@)) by {
        assert(Seq::<char>::empty() =~= seq![]);
    }
    if chars_eq_str(&cmd, "/remember") {
        Some(parse_remember(&rest, false))
    } else if chars_eq_str(&cmd, "/remember-this") {
        Some(parse_remember(&rest, true))
    } else if chars_eq_str(&cmd, "/forget") {
        Some(parse_forget(&rest))
    } else if chars_eq_str(&cmd, "/memory") {
        Some(parse_memory_sub(&rest))
    } else {
        None
    }
}

fn parse_remember(rest: &Vec<char>, is_this: bool) -> (r: Result<Command, String>)
    ensures
        result_view(r) == remember_spec(rest@, is_this),
{
    let toks = split_words(rest);
    let ghost ts = views(toks@);
    let mut scope = Scope::Project;
    let mut kind = Kind::Project;
    let mut content_parts: Vec<Vec<char>> = Vec::new();
    let mut i: usize = 0;
    assert(ts.take(0) =~= Seq::<Seq<char>>::empty());
    assert(views(content_parts@) =~= Seq::<Seq<char>>::empty());
    while i < toks.len()
        invariant
            i <= toks.len(),
            ts == views(toks@),
            ts == words(rest@),
            remember_scan(ts.take(i as int)) == Ok::<_, Seq<char>>((scope, kind, views(content_parts@))),
        decreases toks.len() - i,
    {
        let tok = &toks[i];
        assert(ts.take(i + 1).drop_last() =~= ts.take(i as int));
        assert(ts.take(i + 1).last() == tok@);
        if chars_eq_str(tok, "--global") {
            scope = Scope::Global;
        } else if chars_eq_str(tok, "--project") {
            scope = Scope::Project;
        } else if starts_with_str(tok, "--kind=") {
            proof {
                reveal_strlit("--kind=");
            }
            let k = slice_of(tok, 7, tok.len());
            assert(k@ =~= tok@.skip(7));
            let ks = string_of(&k);
            match Kind::parse(ks.as_str()) {
                Some(kk) => {
                    kind = kk;
                },
                None => {
                    let mut msg = String::new();
                    append_str(&mut msg, "unknown kind: ");
                    append_str(&mut msg, ks.as_str());
                    proof {
                        assert(msg@ =~= "unknown kind: "@ + k@);
                        lemma_remember_scan_err(ts, i + 1);
                    }
                    return Err(msg);
                },
            }
        } else {
            let ghost before = views(content_parts@);
            content_parts.push(slice_of(tok, 0, tok.len()));
            assert(tok@.subrange(0, tok@.len() as int) =~= tok@);
            assert(views(content_parts@) =~= before.push(tok@));
        }
        i = i + 1;
    }
    assert(ts.take(toks.len() as int) =~= ts);
    let sp = chars_of(" ");
    proof {
        reveal_strlit(" ");
        assert(sp@ =~= seq![' ']);
    }
    let content = join_chars(&content_parts, &sp);
    if is_this {
        Ok(Command::RememberThis { scope, kind })
    } else if content.len() == 0 {
        Err("usage: /remember [--global] [--kind=K] <text>".to_owned())
    } else {
        Ok(Command::Remember { content: string_of(&content), scope, kind })
    }
}

/// Splitting `rest`, a space and a word at whitespace gives the words of
/// `rest` and then that word.
proof fn lemma_words_then(rest: Seq<char>, w: Seq<char>)
    requires
        w.len() > 0,
        forall|i: int| 0 <= i < w.len() ==> !crate::text::is_ws(#[trigger] w[i]),
    ensures
        words(rest + seq![' '] + w) == words(rest).push(w),
{
    let sp = rest.push(' ');
    assert(rest + seq![' '] + w =~= sp + w);
    assert(sp.drop_last() =~= rest);
    assert(crate::text::is_ws(' '));
    assert(crate::text::word_scan(sp) == (words(rest), Seq::<char>::empty()));
    crate::text::lemma_word_scan_append_word(sp, w, w.len() as int);
    assert(w.take(w.len() as int) =~= w);
}

/// A `--global` after the other words of `/remember` or `/remember-this`
/// saves in the global store, and a `--project` there in the project's;
/// neither changes whether the command is accepted, nor its kind or text.
pub proof fn law_remember_scope_flags(rest: Seq<char>, is_this: bool)
    ensures
        ({
            let plain = remember_spec(rest + " x"@, is_this);
            let global = remember_spec(rest + " --global x"@, is_this);
            let project = remember_spec(rest + " --project x"@, is_this);
            &&& (plain is Err <==> global is Err) && (plain is Err <==> project is Err)
            &&& match global {
                Ok(CommandSpec::RememberThis { scope, .. }) => scope == Scope::Global,
                Ok(CommandSpec::Remember { scope, .. }) => scope == Scope::Global,
                Ok(_) => false,
                Err(_) => true,
            }
            &&& match project {
                Ok(CommandSpec::RememberThis { scope, .. }) => scope == Scope::Project,
                Ok(CommandSpec::Remember { scope, .. }) => scope == Scope::Project,
                Ok(_) => false,
                Err(_) => true,
            }
            &&& match (plain, global) {
                (Ok(CommandSpec::RememberThis { kind: k1, .. }), Ok(CommandSpec::RememberThis { kind: k2, .. })) => k1 == k2,
                (Ok(CommandSpec::Remember { content: c1, kind: k1, .. }), Ok(CommandSpec::Remember { content: c2, kind: k2, .. })) =>
                    c1 == c2 && k1 == k2,
                (Err(_), Err(_)) => true,
                _ => false,
            }
        }),
{
    reveal_strlit(" x");
    reveal_strlit(" --global x");
    reveal_strlit(" --project x");
    reveal_strlit("x");
    reveal_strlit("--global");
    reveal_strlit("--project");
    reveal_strlit("--kind=");
    let x = "x"@;
    let g = "--global"@;
    let p = "--project"@;
    assert forall|i: int| 0 <= i < g.len() implies !crate::text::is_ws(#[trigger] g[i]) by {}
    assert forall|i: int| 0 <= i < p.len() implies !crate::text::is_ws(#[trigger] p[i]) by {}
    assert forall|i: int| 0 <= i < x.len() implies !crate::text::is_ws(#[trigger] x[i]) by {}
    lemma_words_then(rest, x);
    assert(rest + " x"@ =~= rest + seq![' '] + x);
    lemma_words_then(rest, g);
    lemma_words_then(rest + seq![' '] + g, x);
    assert(rest + " --global x"@ =~= (rest + seq![' '] + g) + seq![' '] + x);
    lemma_words_then(rest, p);
    lemma_words_then(rest + seq![' '] + p, x);
    assert(rest + " --project x"@ =~= (rest + seq![' '] + p) + seq![' '] + x);
    let ws = words(rest);
    assert(ws.push(x).drop_last() =~= ws);
    assert(ws.push(g).push(x).drop_last() =~= ws.push(g));
    assert(ws.push(g).drop_last() =~= ws);
    assert(ws.push(p).push(x).drop_last() =~= ws.push(p));
    assert(ws.push(p).drop_last() =~= ws);
    assert(x != g && x != p && g != p);
    assert(!starts_with(x, "--kind="@));
    match remember_scan(ws) {
        Err(e) => {
            assert(remember_scan(ws.push(x)) == Err::<(Scope, Kind, Seq<Seq<char>>), Seq<char>>(e));
            assert(remember_scan(ws.push(g)) == Err::<(Scope, Kind, Seq<Seq<char>>), Seq<char>>(e));
            assert(remember_scan(ws.push(g).push(x)) == Err::<(Scope, Kind, Seq<Seq<char>>), Seq<char>>(e));
            assert(remember_scan(ws.push(p)) == Err::<(Scope, Kind, Seq<Seq<char>>), Seq<char>>(e));
            assert(remember_scan(ws.push(p).push(x)) == Err::<(Scope, Kind, Seq<Seq<char>>), Seq<char>>(e));
        },
        Ok((sc, k, found)) => {
            assert(remember_scan(ws.push(x)) == Ok::<_, Seq<char>>((sc, k, found.push(x))));
            assert(remember_scan(ws.push(g)) == Ok::<_, Seq<char>>((Scope::Global, k, found)));
            assert(remember_scan(ws.push(g).push(x)) == Ok::<_, Seq<char>>((Scope::Global, k, found.push(x))));
            assert(remember_scan(ws.push(p)) == Ok::<_, Seq<char>>((Scope::Project, k, found)));
            assert(remember_scan(ws.push(p).push(x)) == Ok::<_, Seq<char>>((Scope::Project, k, found.push(x))));
            let all = found.push(x);
            if all.len() == 1 {
                assert(join(all, seq![' ']) == x);
            } else {
                assert(join(all, seq![' ']) == join(all.drop_last(), seq![' ']) + seq![' '] + x);
            }
            assert(join(all, seq![' ']).len() > 0);
        },
    }
}

/// `/remember-this` reads its options as `/remember` does: with the same
/// words, and a note for `/remember` to save after them, both fail alike
/// or both succeed, with the same scope and kind (`--global` saves in the
/// global store for either).
pub proof fn law_remember_this_reads_options(rest: Seq<char>)
    ensures
        ({
            let a = remember_spec(rest, true);
            let b = remember_spec(rest + " note"@, false);
            &&& (a is Err <==> b is Err)
            &&& (a is Err ==> a == b)
            &&& (a is Ok ==> a matches Ok(CommandSpec::RememberThis { .. }))
            &&& (a matches Ok(CommandSpec::RememberThis { scope, kind }) ==> (b matches Ok(
                CommandSpec::Remember { scope: s2, kind: k2, .. },
            ) && s2 == scope && k2 == kind))
        }),
{
    reveal_strlit(" note");
    reveal_strlit("note");
    reveal_strlit("--global");
    reveal_strlit("--project");
    reveal_strlit("--kind=");
    let note = "note"@;
    let sp = rest.push(' ');
    assert(rest + " note"@ =~= sp + note);
    assert(sp.drop_last() =~= rest);
    assert(crate::text::is_ws(' '));
    assert(crate::text::word_scan(sp) == (words(rest), Seq::<char>::empty()));
    assert forall|i: int| 0 <= i < note.len() implies !crate::text::is_ws(#[trigger] note[i]) by {}
    crate::text::lemma_word_scan_append_word(sp, note, 4);
    assert(note.take(4) =~= note);
    let ws = words(rest);
    assert(words(rest + " note"@) == ws.push(note));
    assert(ws.push(note).drop_last() =~= ws);
    assert(note != "--global"@ && note != "--project"@);
    assert(!starts_with(note, "--kind="@));
    match remember_scan(ws) {
        Err(e) => {},
        Ok((scope, kind, found)) => {
            let all = found.push(note);
            assert(remember_scan(ws.push(note)) == Ok::<_, Seq<char>>((scope, kind, all)));
            assert(all.last() == note);
            if all.len() == 1 {
                assert(join(all, seq![' ']) == note);
            } else {
                assert(join(all, seq![' ']) == join(all.drop_last(), seq![' ']) + seq![' '] + note);
            }
            assert(join(all, seq![' ']).len() > 0);
        },
    }
}

proof fn lemma_remember_scan_err(ts: Seq<Seq<char>>, k: int)
    requires
        1 <= k <= ts.len(),
        remember_scan(ts.take(k)) is Err,
    ensures
        remember_scan(ts) == remember_scan(ts.take(k)),
    decreases ts.len() - k,
{
    if k < ts.len() {
        assert(ts.take(k + 1).drop_last() =~= ts.take(k));
        lemma_remember_scan_err(ts, k + 1);
    } else {
        assert(ts.take(k) =~= ts);
    }
}

fn parse_forget(rest: &Vec<char>) -> (r: Result<Command, String>)
    ensures
        result_view(r) == forget_spec(rest@),
{
    let toks = split_words(rest);
    let ghost ts = views(toks@);
    let mut scope = Scope::Project;
    let mut id: Option<i64> = None;
    let mut i: usize = 0;
    assert(ts.take(0) =~= Seq::<Seq<char>>::empty());
    while i < toks.len()
        invariant
            i <= toks.len(),
            ts == views(toks@),
            forget_scan(ts.take(i as int)) == (scope, id),
        decreases toks.len() - i,
    {
        let tok = &toks[i];
        assert(ts.take(i + 1).drop_last() =~= ts.take(i as int));
        assert(ts.take(i + 1).last() == tok@);
        if chars_eq_str(tok, "--global") {
            scope = Scope::Global;
        } else if chars_eq_str(tok, "--project") {
            scope = Scope::Project;
        } else {
            match parse_i64_exec(tok) {
                Some(v) => {
                    id = Some(v);
                },
                None => {},
            }
        }
        i = i + 1;
    }
    assert(ts.take(toks.len() as int) =~= ts);
    match id {
        Some(v) => Ok(Command::Forget { id: v, scope }),
        None => Err("usage: /forget [--global] <id>".to_owned()),
    }
}

/// The scope named by the last `--scope=` word of `tail`, if any.
fn list_scope(tail: &Vec<char>) -> (r: Option<Scope>)
    ensures
        r == list_scope_scan(words(tail@)),
{
    let toks = split_words(tail);
    let ghost ts = views(toks@);
    let mut scope: Option<Scope> = None;
    let mut i: usize = 0;
    assert(ts.take(0) =~= Seq::<Seq<char>>::empty());
    while i < toks.len()
        invariant
            i <= toks.len(),
            ts == views(toks@),
            list_scope_scan(ts.take(i as int)) == scope,
        decreases toks.len() - i,
    {
        let tok = &toks[i];
        assert(ts.take(i + 1).drop_last() =~= ts.take(i as int));
        assert(ts.take(i + 1).last() == tok@);
        if starts_with_str(tok, "--scope=") {
            proof {
                reveal_strlit("--scope=");
            }
            let v = slice_of(tok, 8, tok.len());
            assert(v@ =~= tok@.skip(8));
            scope = if chars_eq_str(&v, "global") {
                Some(Scope::Global)
            } else if chars_eq_str(&v, "project") {
                Some(Scope::Project)
            } else {
                None
            };
        }
        i = i + 1;
    }
    assert(ts.take(toks.len() as int) =~= ts);
    scope
}

fn parse_memory_sub(rest: &Vec<char>) -> (r: Result<Command, String>)
    ensures
        result_view(r) == memory_sub_spec(rest@),
{
    let (sub, tail) = match split_once_space_exec(rest) {
        Some((s, t)) => (s, trim_chars(&t)),
        None => (slice_of(rest, 0, rest.len()), Vec::new()),
    };
    assert(rest@.subrange(0, rest@.len() as int) =~= rest@);
    assert(Seq::<char>::empty() =~= seq![]);
    let num = parse_i64_exec(&sub);
    let count: i64 = match num {
        Some(n) => n,
        None => -1,
    };
    if sub.len() == 0 || chars_eq_str(&sub, "list") {
        Ok(Command::List { scope: list_scope(&tail), limit: LIST_LIMIT })
    } else if count >= 0 {
        Ok(Command::List { scope: list_scope(&tail), limit: count as u64 })
    } else if chars_eq_str(&sub, "reindex") {
        Ok(Command::Reindex)
    } else if chars_eq_str(&sub, "accept") {
        Ok(Command::Accept)
    } else if chars_eq_str(&sub, "disable") {
        Ok(Command::Disable)
    } else {
        let mut msg = String::new();
        append_str(&mut msg, "unknown: /memory ");
        crate::text::append_str_chars(&mut msg, &sub);
        Err(msg)
    }
}

/// Human-readable summary after a successful save.
pub fn save_ack(id: i64, scope: Scope, kind: Kind) -> (r: String)
    ensures
        r@ == "memory #"@ + dec_int(id as int) + " saved (scope="@ + scope_name(scope) + ", kind="@
            + kind_name(kind) + ")"@,
{
    let mut s = String::new();
    append_str(&mut s, "memory #");
    push_i64(&mut s, id);
    append_str(&mut s, " saved (scope=");
    append_str(&mut s, match scope {
        Scope::Global => "global",
        Scope::Project => "project",
    });
    append_str(&mut s, ", kind=");
    append_str(&mut s, kind.as_str());
    append_str(&mut s, ")");
    s
}

} // verus!
