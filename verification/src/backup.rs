//! Backups as rsync runs: the command line of each job, how it is shown to the
//! user, and how rsync's progress output is read.
use vstd::prelude::*;
use crate::config::{copy_job, job_views, opt_view, Config, JobView, SyncJob, SyncMode};
use crate::bytes::lossy_text;
use crate::paths::{join, push_join};
use crate::text::{
    chars_of, contains, contains_str, decimal, find, find_char, find_char_exec, find_str,
    is_white_space, join as join_with, parse_u64, parse_u64_chars, prefix, push_chars,
    push_decimal, push_joined, push_str, remove_char, remove_char_exec, split, split_exec,
    starts_with, starts_with_str, string_of, suffix, trim, trim_chars, trim_end_char,
    trim_end_char_exec, views_of, white_space, words, words_of, lemma_views_push,
    lemma_find_found, lemma_find_char_found,
};

verus! {

// ───────────────────────────── durations ─────────────────────────────

/// How a number of seconds is shown: `42s`, `3m 7s` or `2h 5m`.
pub open spec fn duration_text(secs: nat) -> Seq<char> {
    if secs < 60 {
        decimal(secs) + "s"@
    } else if secs < 3600 {
        decimal(secs / 60) + "m "@ + decimal(secs % 60) + "s"@
    } else {
        decimal(secs / 3600) + "h "@ + decimal((secs % 3600) / 60) + "m"@
    }
}

/// Seconds as `42s`, `3m 7s` or `2h 5m` (hours, then whole minutes).
pub fn format_duration(secs: u64) -> (s: String)
    ensures
        s@ == duration_text(secs as nat),
{
    let mut v: Vec<char> = Vec::new();
    if secs < 60 {
        push_decimal(&mut v, secs);
        push_str(&mut v, "s");
    } else if secs < 3600 {
        push_decimal(&mut v, secs / 60);
        push_str(&mut v, "m ");
        push_decimal(&mut v, secs % 60);
        push_str(&mut v, "s");
    } else {
        push_decimal(&mut v, secs / 3600);
        push_str(&mut v, "h ");
        push_decimal(&mut v, (secs % 3600) / 60);
        push_str(&mut v, "m");
    }
    string_of(v.as_slice())
}

// ───────────────────────────── rsync arguments ─────────────────────────────

/// The `--exclude=` option of each exclude pattern.
pub open spec fn exclude_options(excludes: Seq<Seq<char>>) -> Seq<Seq<char>> {
    Seq::new(excludes.len(), |i: int| "--exclude="@ + excludes[i])
}

/// The rsync arguments of `job` on the drive mounted at `root`, after the
/// archive flag `flag`: progress and partial-transfer options, `--delete` for
/// mirror jobs, one `--exclude=` per pattern, then the source and the
/// destination folder on the drive, each with a trailing `/` so that rsync
/// copies the contents of the folder.
pub open spec fn rsync_arg_list(flag: Seq<char>, job: JobView, root: Seq<char>) -> Seq<Seq<char>> {
    seq![flag, "--info=progress2"@, "--no-inc-recursive"@, "--partial-dir=.rsync-partial"@] + (
    if job.mode == SyncMode::Backup {
        seq!["--delete"@]
    } else {
        seq![]
    }) + exclude_options(job.excludes) + seq![
        job.source + seq!['/'],
        join(root, job.destination) + seq!['/'],
    ]
}

/// A `String` holding the characters of `s`.
pub fn owned(s: &str) -> (r: String)
    ensures
        r@ == s@,
{
    let v = chars_of(s);
    string_of(v.as_slice())
}

/// The rsync arguments of `job` with the given archive flag.
pub fn rsync_args_with_flag(flag: &str, job: &SyncJob, drive_root: &str) -> (args: Vec<String>)
    ensures
        views_of(args@) == rsync_arg_list(flag@, job@, drive_root@),
{
    let mut args: Vec<String> = Vec::new();
    let ghost opt = if job.mode == SyncMode::Backup {
        seq!["--delete"@]
    } else {
        seq![]
    };
    let a0 = owned(flag);
    let a1 = owned("--info=progress2");
    let a2 = owned("--no-inc-recursive");
    let a3 = owned("--partial-dir=.rsync-partial");
    proof {
        lemma_views_push(args@, a0);
        lemma_views_push(args@.push(a0), a1);
        lemma_views_push(args@.push(a0).push(a1), a2);
        lemma_views_push(args@.push(a0).push(a1).push(a2), a3);
    }
    args.push(a0);
    args.push(a1);
    args.push(a2);
    args.push(a3);
    if job.mode == SyncMode::Backup {
        let d = owned("--delete");
        proof {
            lemma_views_push(args@, d);
        }
        args.push(d);
    }
    let ghost head = views_of(args@);
    assert(head =~= seq![flag@, "--info=progress2"@, "--no-inc-recursive"@, "--partial-dir=.rsync-partial"@] + opt);
    let ghost ex = exclude_options(job@.excludes);
    let mut i: usize = 0;
    while i < job.excludes.len()
        invariant
            i <= job.excludes@.len(),
            ex == exclude_options(job@.excludes),
            views_of(args@) == head + ex.take(i as int),
        decreases job.excludes@.len() - i,
    {
        let mut v: Vec<char> = Vec::new();
        push_str(&mut v, "--exclude=");
        push_str(&mut v, job.excludes[i].as_str());
        let e = string_of(v.as_slice());
        assert(ex[i as int] == e@);
        proof {
            lemma_views_push(args@, e);
        }
        args.push(e);
        assert(ex.take(i + 1) =~= ex.take(i as int).push(ex[i as int]));
        assert(views_of(args@) =~= head + ex.take(i + 1));
        i += 1;
    }
    assert(ex.take(job.excludes@.len() as int) =~= ex);
    let mut src: Vec<char> = Vec::new();
    push_str(&mut src, job.source.as_str());
    src.push('/');
    let s = string_of(src.as_slice());
    proof {
        lemma_views_push(args@, s);
    }
    args.push(s);
    let mut dst: Vec<char> = Vec::new();
    push_join(&mut dst, drive_root, job.destination.as_str());
    dst.push('/');
    let d = string_of(dst.as_slice());
    assert(s@ =~= job@.source + seq!['/']);
    assert(d@ =~= join(drive_root@, job@.destination) + seq!['/']);
    proof {
        lemma_views_push(args@, d);
    }
    args.push(d);
    assert(views_of(args@) =~= rsync_arg_list(flag@, job@, drive_root@));
    args
}

/// The rsync arguments of one job (without running it).
pub fn rsync_args(job: &SyncJob, drive_root: &str) -> (args: Vec<String>)
    ensures
        views_of(args@) == rsync_arg_list("-av"@, job@, drive_root@),
{
    rsync_args_with_flag("-av", job, drive_root)
}

// ───────────────────────────── shell quoting ─────────────────────────────

/// Characters that make a POSIX shell read a word differently.
pub open spec fn needs_quoting(c: char) -> bool {
    ||| is_white_space(c)
    ||| c == '"'
    ||| c == '\''
    ||| c == '\\'
    ||| c == '$'
    ||| c == '`'
    ||| c == '('
    ||| c == ')'
    ||| c == '&'
    ||| c == '|'
    ||| c == ';'
    ||| c == '<'
    ||| c == '>'
    ||| c == '!'
    ||| c == '#'
    ||| c == '~'
    ||| c == '*'
    ||| c == '?'
}

fn needs_quoting_exec(c: char) -> (b: bool)
    ensures
        b == needs_quoting(c),
{
    white_space(c) || c == '"' || c == '\'' || c == '\\' || c == '$' || c == '`' || c == '('
        || c == ')' || c == '&' || c == '|' || c == ';' || c == '<' || c == '>' || c == '!' || c
        == '#' || c == '~' || c == '*' || c == '?'
}

/// What a character becomes inside single quotes: a quote closes the quoting,
/// adds an escaped quote and reopens it.
pub open spec fn quoted_piece(c: char) -> Seq<char> {
    if c == '\'' {
        seq!['\'', '\\', '\'', '\'']
    } else {
        seq![c]
    }
}

/// `s` with each single quote replaced by `'\''`.
pub open spec fn escape_quotes(s: Seq<char>) -> Seq<char>
    decreases s.len(),
{
    if s.len() == 0 {
        seq![]
    } else {
        escape_quotes(s.drop_last()) + quoted_piece(s.last())
    }
}

/// How `shell_quote` writes `s`: unchanged when no character needs quoting,
/// otherwise inside single quotes.
pub open spec fn shell_quoted(s: Seq<char>) -> Seq<char> {
    if exists|i: int| 0 <= i < s.len() && needs_quoting(#[trigger] s[i]) {
        seq!['\''] + escape_quotes(s) + seq!['\'']
    } else {
        s
    }
}

/// `s` written so that a POSIX shell reads it back as one word.
pub fn shell_quote(s: &str) -> (q: String)
    ensures
        q@ == shell_quoted(s@),
{
    let v = chars_of(s);
    let mut special = false;
    let mut i: usize = 0;
    while i < v.len()
        invariant
            v@ == s@,
            i <= v@.len(),
            special <==> exists|j: int| 0 <= j < i && needs_quoting(#[trigger] v@[j]),
        decreases v@.len() - i,
    {
        if needs_quoting_exec(v[i]) {
            special = true;
        }
        i += 1;
    }
    if !special {
        return string_of(v.as_slice());
    }
    let mut out: Vec<char> = Vec::new();
    out.push('\'');
    let mut k: usize = 0;
    while k < v.len()
        invariant
            v@ == s@,
            k <= v@.len(),
            out@ == seq!['\''] + escape_quotes(v@.take(k as int)),
        decreases v@.len() - k,
    {
        assert(v@.take(k + 1).drop_last() =~= v@.take(k as int));
        if v[k] == '\'' {
            out.push('\'');
            out.push('\\');
            out.push('\'');
            out.push('\'');
        } else {
            out.push(v[k]);
        }
        assert(out@ =~= seq!['\''] + escape_quotes(v@.take(k + 1)));
        k += 1;
    }
    assert(v@.take(v@.len() as int) =~= v@);
    out.push('\'');
    string_of(out.as_slice())
}

/// Puts `c` in front of a word that was read.
pub open spec fn prepend(c: char, w: Option<Seq<char>>) -> Option<Seq<char>> {
    match w {
        Some(w) => Some(seq![c] + w),
        None => None,
    }
}

/// Puts `t` in front of a word that was read.
pub open spec fn prepend_all(t: Seq<char>, w: Option<Seq<char>>) -> Option<Seq<char>> {
    match w {
        Some(w) => Some(t + w),
        None => None,
    }
}

/// How a POSIX shell reads `s` as one word, starting inside single quotes
/// when `quoted`: inside single quotes every character but the closing quote
/// is taken as it is; outside them a single quote opens quoting, a backslash
/// takes the next character as it is, and any other character that needs
/// quoting would end the word or change its meaning (`None`). `None` also
/// when the quoting is left open.
pub open spec fn shell_word(s: Seq<char>, quoted: bool) -> Option<Seq<char>>
    decreases s.len(),
{
    if s.len() == 0 {
        if quoted {
            None
        } else {
            Some(seq![])
        }
    } else if quoted {
        if s[0] == '\'' {
            shell_word(s.drop_first(), false)
        } else {
            prepend(s[0], shell_word(s.drop_first(), true))
        }
    } else if s[0] == '\'' {
        shell_word(s.drop_first(), true)
    } else if s[0] == '\\' {
        if s.len() >= 2 {
            prepend(s[1], shell_word(s.skip(2), false))
        } else {
            None
        }
    } else if needs_quoting(s[0]) {
        None
    } else {
        prepend(s[0], shell_word(s.drop_first(), false))
    }
}

proof fn lemma_plain_word(s: Seq<char>)
    requires
        forall|i: int| 0 <= i < s.len() ==> !needs_quoting(#[trigger] s[i]),
    ensures
        shell_word(s, false) == Some(s),
    decreases s.len(),
{
    if s.len() > 0 {
        assert(!needs_quoting(s[0]));
        let r = s.drop_first();
        assert forall|i: int| 0 <= i < r.len() implies !needs_quoting(#[trigger] r[i]) by {
            assert(r[i] == s[i + 1]);
        }
        lemma_plain_word(r);
        assert(seq![s[0]] + r =~= s);
    }
}

proof fn lemma_quoted_piece(c: char, rest: Seq<char>)
    ensures
        shell_word(quoted_piece(c) + rest, true) == prepend(c, shell_word(rest, true)),
{
    let p = quoted_piece(c) + rest;
    if c == '\'' {
        assert(p[0] == '\'');
        assert(p.drop_first() =~= seq!['\\', '\'', '\''] + rest);
        let q = p.drop_first();
        assert(q[0] == '\\' && q[1] == '\'' && q.len() >= 2);
        let r = q.skip(2);
        assert(r =~= seq!['\''] + rest);
        assert(r[0] == '\'');
        assert(r.drop_first() =~= rest);
        assert(shell_word(r, false) == shell_word(rest, true));
        assert(shell_word(q, false) == prepend('\'', shell_word(r, false)));
        assert(shell_word(p, true) == shell_word(q, false));
    } else {
        assert(p[0] == c);
        assert(p.drop_first() =~= rest);
    }
}

proof fn lemma_escaped_word(t: Seq<char>, rest: Seq<char>)
    ensures
        shell_word(escape_quotes(t) + rest, true) == prepend_all(t, shell_word(rest, true)),
    decreases t.len(),
{
    if t.len() == 0 {
        assert(escape_quotes(t) + rest =~= rest);
        match shell_word(rest, true) {
            Some(w) => {
                assert(t + w =~= w);
            },
            None => {},
        }
    } else {
        let c = t.last();
        let t0 = t.drop_last();
        assert(escape_quotes(t) + rest =~= escape_quotes(t0) + (quoted_piece(c) + rest));
        lemma_escaped_word(t0, quoted_piece(c) + rest);
        lemma_quoted_piece(c, rest);
        match shell_word(rest, true) {
            Some(w) => {
                assert(t0 + (seq![c] + w) =~= t + w);
            },
            None => {},
        }
    }
}

/// Quoting round-trips: whatever `s` holds, a POSIX shell reads the text that
/// `shell_quote` makes of it back as exactly `s`, in one word.
pub proof fn shell_quote_reads_back(s: Seq<char>)
    ensures
        shell_word(shell_quoted(s), false) == Some(s),
{
    if exists|i: int| 0 <= i < s.len() && needs_quoting(#[trigger] s[i]) {
        let q = seq!['\''] + escape_quotes(s) + seq!['\''];
        assert(q[0] == '\'');
        assert(q.drop_first() =~= escape_quotes(s) + seq!['\'']);
        lemma_escaped_word(s, seq!['\'']);
        let one = seq!['\''];
        assert(one[0] == '\'');
        assert(one.drop_first() =~= Seq::<char>::empty());
        assert(shell_word(Seq::<char>::empty(), false) == Some(Seq::<char>::empty()));
        assert(shell_word(one, true) == Some(Seq::<char>::empty()));
        assert(s + Seq::<char>::empty() =~= s);
        assert(shell_word(q, false) == shell_word(q.drop_first(), true));
    } else {
        lemma_plain_word(s);
    }
}

/// The command line shown for a job: `rsync` and the quoted arguments,
/// separated by single spaces.
pub open spec fn command_line(args: Seq<Seq<char>>) -> Seq<char> {
    "rsync "@ + join_with(Seq::new(args.len(), |i: int| shell_quoted(args[i])), " "@)
}

/// The characters a POSIX shell splits words at, outside quotes.
pub open spec fn is_separator(c: char) -> bool {
    c == ' ' || c == '\t' || c == '\n'
}

/// The characters read so far of the word being read; none between words.
pub open spec fn word_so_far(cur: Option<Seq<char>>) -> Seq<char> {
    match cur {
        Some(w) => w,
        None => seq![],
    }
}

/// Puts the word `w` in front of the words that were read.
pub open spec fn prepend_word(w: Seq<char>, ws: Option<Seq<Seq<char>>>) -> Option<Seq<Seq<char>>> {
    match ws {
        Some(ws) => Some(seq![w] + ws),
        None => None,
    }
}

/// How a POSIX shell splits `s` into words, `cur` holding the word being read
/// (none between words) and `quoted` telling whether a single quote is open:
/// blanks outside quotes end a word, single quotes take everything up to the
/// next one as it is, a backslash takes the next character as it is. `None`
/// when the quoting is left open or a character outside quotes would do more
/// than stand for itself (`needs_quoting`).
pub open spec fn line_words(s: Seq<char>, cur: Option<Seq<char>>, quoted: bool) -> Option<Seq<Seq<char>>>
    decreases s.len(),
{
    if s.len() == 0 {
        if quoted {
            None
        } else {
            match cur {
                Some(w) => Some(seq![w]),
                None => Some(seq![]),
            }
        }
    } else if quoted {
        if s[0] == '\'' {
            line_words(s.drop_first(), cur, false)
        } else {
            line_words(s.drop_first(), Some(word_so_far(cur).push(s[0])), true)
        }
    } else if is_separator(s[0]) {
        match cur {
            Some(w) => prepend_word(w, line_words(s.drop_first(), None, false)),
            None => line_words(s.drop_first(), None, false),
        }
    } else if s[0] == '\'' {
        line_words(s.drop_first(), Some(word_so_far(cur)), true)
    } else if s[0] == '\\' {
        if s.len() >= 2 {
            line_words(s.skip(2), Some(word_so_far(cur).push(s[1])), false)
        } else {
            None
        }
    } else if needs_quoting(s[0]) {
        None
    } else {
        line_words(s.drop_first(), Some(word_so_far(cur).push(s[0])), false)
    }
}

/// The words a POSIX shell reads in the command line `s`.
pub open spec fn shell_words(s: Seq<char>) -> Option<Seq<Seq<char>>> {
    line_words(s, None, false)
}

/// Reading a text that a shell reads as the one word `a` adds `a` to the word
/// being read and leaves the reading outside quotes.
proof fn lemma_read_word(s: Seq<char>, quoted: bool, a: Seq<char>, rest: Seq<char>, cur: Option<Seq<char>>)
    requires
        shell_word(s, quoted) == Some(a),
        s.len() > 0 || cur is Some,
        quoted ==> cur is Some,
    ensures
        line_words(s + rest, cur, quoted) == line_words(rest, Some(word_so_far(cur) + a), false),
    decreases s.len(),
{
    if s.len() == 0 {
        assert(s + rest =~= rest);
        assert(word_so_far(cur) + a =~= word_so_far(cur));
    } else {
        let t = s + rest;
        assert(t[0] == s[0]);
        assert(t.drop_first() =~= s.drop_first() + rest);
        if quoted {
            if s[0] == '\'' {
                lemma_read_word(s.drop_first(), false, a, rest, cur);
            } else {
                let a1 = shell_word(s.drop_first(), true)->0;
                assert(a =~= seq![s[0]] + a1);
                lemma_read_word(s.drop_first(), true, a1, rest, Some(word_so_far(cur).push(s[0])));
                assert(word_so_far(cur).push(s[0]) + a1 =~= word_so_far(cur) + a);
            }
        } else if s[0] == '\'' {
            lemma_read_word(s.drop_first(), true, a, rest, Some(word_so_far(cur)));
        } else if s[0] == '\\' {
            assert(s.len() >= 2);
            let a1 = shell_word(s.skip(2), false)->0;
            assert(a =~= seq![s[1]] + a1);
            assert(t.len() >= 2 && t[1] == s[1]);
            assert(t.skip(2) =~= s.skip(2) + rest);
            lemma_read_word(s.skip(2), false, a1, rest, Some(word_so_far(cur).push(s[1])));
            assert(word_so_far(cur).push(s[1]) + a1 =~= word_so_far(cur) + a);
        } else {
            assert(!needs_quoting(s[0]));
            assert(!is_separator(s[0])) by {
                if is_separator(s[0]) {
                    assert(is_white_space(s[0]));
                }
            }
            let a1 = shell_word(s.drop_first(), false)->0;
            assert(a =~= seq![s[0]] + a1);
            lemma_read_word(s.drop_first(), false, a1, rest, Some(word_so_far(cur).push(s[0])));
            assert(word_so_far(cur).push(s[0]) + a1 =~= word_so_far(cur) + a);
        }
    }
}

proof fn lemma_quoted_nonempty(a: Seq<char>)
    requires
        a.len() > 0,
    ensures
        shell_quoted(a).len() > 0,
{
}

/// The quoted arguments, joined by single spaces, read back as the arguments.
proof fn lemma_joined_words(args: Seq<Seq<char>>)
    requires
        args.len() > 0,
        forall|i: int| 0 <= i < args.len() ==> (#[trigger] args[i]).len() > 0,
    ensures
        shell_words(join_with(Seq::new(args.len(), |i: int| shell_quoted(args[i])), " "@)) == Some(args),
    decreases args.len(),
{
    let qs = Seq::new(args.len(), |i: int| shell_quoted(args[i]));
    let a0 = args[0];
    assert(a0.len() > 0);
    shell_quote_reads_back(a0);
    lemma_quoted_nonempty(a0);
    assert(qs[0] == shell_quoted(a0));
    if args.len() == 1 {
        assert(join_with(qs, " "@) == qs[0]);
        lemma_read_word(qs[0], false, a0, seq![], None);
        assert(qs[0] + seq![] =~= qs[0]);
        assert(seq![] + a0 =~= a0);
        assert(seq![a0] =~= args);
    } else {
        let rest = args.drop_first();
        assert forall|i: int| 0 <= i < rest.len() implies (#[trigger] rest[i]).len() > 0 by {
            assert(rest[i] == args[i + 1]);
        }
        lemma_joined_words(rest);
        let rq = Seq::new(rest.len(), |i: int| shell_quoted(rest[i]));
        assert(qs.drop_first() =~= rq);
        crate::text::lemma_join_front(qs, " "@);
        let tail = " "@ + join_with(rq, " "@);
        assert(join_with(qs, " "@) =~= qs[0] + tail);
        lemma_read_word(qs[0], false, a0, tail, None);
        assert(seq![] + a0 =~= a0);
        reveal_strlit(" ");
        assert(tail[0] == ' ');
        assert(tail.drop_first() =~= join_with(rq, " "@));
        assert(seq![a0] + rest =~= args);
    }
}

/// The command line shown for a job reads back as the command that runs: a
/// POSIX shell splits it into `rsync` followed by exactly the arguments, each
/// in one piece whatever characters it holds, as long as none is empty.
pub proof fn command_line_reads_back(args: Seq<Seq<char>>)
    requires
        forall|i: int| 0 <= i < args.len() ==> (#[trigger] args[i]).len() > 0,
    ensures
        shell_words(command_line(args)) == Some(seq!["rsync"@] + args),
{
    reveal_strlit("rsync ");
    reveal_strlit("rsync");
    reveal_strlit(" ");
    let r = "rsync"@;
    let qs = Seq::new(args.len(), |i: int| shell_quoted(args[i]));
    let j = join_with(qs, " "@);
    assert(command_line(args) =~= r + (" "@ + j));
    assert forall|i: int| 0 <= i < r.len() implies !needs_quoting(#[trigger] r[i]) by {
        assert(r[i] == 'r' || r[i] == 's' || r[i] == 'y' || r[i] == 'n' || r[i] == 'c');
    }
    lemma_plain_word(r);
    lemma_read_word(r, false, r, " "@ + j, None);
    assert(seq![] + r =~= r);
    let sp = " "@ + j;
    assert(sp[0] == ' ');
    assert(sp.drop_first() =~= j);
    if args.len() == 0 {
        assert(qs =~= Seq::<Seq<char>>::empty());
        assert(j == Seq::<char>::empty());
        assert(seq![r] + args =~= seq![r]);
    } else {
        lemma_joined_words(args);
    }
}

/// Every rsync argument of a job is non-empty, so its command line reads back
/// as the command that runs (see `command_line_reads_back`).
pub proof fn rsync_command_reads_back(flag: Seq<char>, job: JobView, root: Seq<char>)
    requires
        flag.len() > 0,
    ensures
        shell_words(command_line(rsync_arg_list(flag, job, root))) == Some(
            seq!["rsync"@] + rsync_arg_list(flag, job, root),
        ),
{
    let args = rsync_arg_list(flag, job, root);
    reveal_strlit("--info=progress2");
    reveal_strlit("--no-inc-recursive");
    reveal_strlit("--partial-dir=.rsync-partial");
    reveal_strlit("--delete");
    reveal_strlit("--exclude=");
    let head = seq![flag, "--info=progress2"@, "--no-inc-recursive"@, "--partial-dir=.rsync-partial"@];
    let opt: Seq<Seq<char>> = if job.mode == SyncMode::Backup {
        seq!["--delete"@]
    } else {
        seq![]
    };
    let ex = exclude_options(job.excludes);
    let tail = seq![job.source + seq!['/'], join(root, job.destination) + seq!['/']];
    assert(args == head + opt + ex + tail);
    assert forall|i: int| 0 <= i < args.len() implies (#[trigger] args[i]).len() > 0 by {
        let n0 = head.len() as int;
        let n1 = n0 + opt.len();
        let n2 = n1 + ex.len();
        if i < n0 {
            assert(args[i] == head[i]);
        } else if i < n1 {
            assert(args[i] == opt[i - n0]);
        } else if i < n2 {
            assert(args[i] == ex[i - n1]);
            assert(ex[i - n1] == "--exclude="@ + job.excludes[i - n1]);
        } else {
            assert(args[i] == tail[i - n2]);
        }
    }
    command_line_reads_back(args);
}

/// The quoted form of each argument of `args`.
pub fn quote_all(args: &Vec<String>) -> (q: Vec<String>)
    ensures
        views_of(q@) == Seq::new(args@.len(), |i: int| shell_quoted(args@[i]@)),
{
    let mut q: Vec<String> = Vec::new();
    let mut i: usize = 0;
    while i < args.len()
        invariant
            i <= args@.len(),
            views_of(q@) == Seq::new(i as nat, |j: int| shell_quoted(args@[j]@)),
        decreases args@.len() - i,
    {
        let one = shell_quote(args[i].as_str());
        proof {
            lemma_views_push(q@, one);
        }
        q.push(one);
        assert(views_of(q@) =~= Seq::new((i + 1) as nat, |j: int| shell_quoted(args@[j]@)));
        i += 1;
    }
    q
}

/// The command line of a list of rsync arguments.
pub fn command_line_of(args: &Vec<String>) -> (s: String)
    ensures
        s@ == command_line(views_of(args@)),
{
    let q = quote_all(args);
    let mut v: Vec<char> = Vec::new();
    push_str(&mut v, "rsync ");
    push_joined(&mut v, q.as_slice(), " ");
    assert(views_of(q@) =~= Seq::new(
        views_of(args@).len(),
        |i: int| shell_quoted(views_of(args@)[i]),
    ));
    string_of(v.as_slice())
}

/// The rsync command of a job as a line a shell can run.
pub fn rsync_command_string(job: &SyncJob, drive_root: &str) -> (s: String)
    ensures
        s@ == command_line(rsync_arg_list("-av"@, job@, drive_root@)),
{
    let args = rsync_args(job, drive_root);
    command_line_of(&args)
}

// ───────────────────────────── rsync progress output ─────────────────────────────

/// The part of a progress line that tells how far the transfer is: the byte
/// count and the percentage as rsync printed it.
pub struct TransferPoint {
    pub bytes: u64,
    /// The percentage text before `%` (a number, possibly with a fraction).
    pub percent: String,
}

/// What one line of rsync output says.
pub struct RsyncUpdate {
    /// Bytes transferred and percentage, from a progress line.
    pub transfer: Option<TransferPoint>,
    /// The percentage text alone, from a progress line.
    pub percent: Option<String>,
    /// `(files_total, files_transferred)` from the `to-chk=` counter.
    pub files: Option<(u64, u64)>,
    /// The bytes of the whole transfer, from a summary line.
    pub bytes_total: Option<u64>,
    /// The file being transferred.
    pub current_file: Option<String>,
}

/// What an `RsyncUpdate` says, as plain values.
pub struct RsyncUpdateView {
    pub transfer: Option<(u64, Seq<char>)>,
    pub percent: Option<Seq<char>>,
    pub files: Option<(u64, u64)>,
    pub bytes_total: Option<u64>,
    pub current_file: Option<Seq<char>>,
}

impl View for RsyncUpdate {
    type V = RsyncUpdateView;

    open spec fn view(&self) -> RsyncUpdateView {
        RsyncUpdateView {
            transfer: match self.transfer {
                Some(t) => Some((t.bytes, t.percent@)),
                None => None,
            },
            percent: match self.percent {
                Some(p) => Some(p@),
                None => None,
            },
            files: self.files,
            bytes_total: self.bytes_total,
            current_file: match self.current_file {
                Some(f) => Some(f@),
                None => None,
            },
        }
    }
}

/// The update that says nothing.
pub open spec fn no_update() -> RsyncUpdateView {
    RsyncUpdateView {
        transfer: None,
        percent: None,
        files: None,
        bytes_total: None,
        current_file: None,
    }
}

/// `n`, or 0 when there is none (`unwrap_or(0)`).
pub open spec fn or_zero(n: Option<u64>) -> u64 {
    match n {
        Some(v) => v,
        None => 0,
    }
}

/// `a - b`, or 0 when `b` is larger (`u64::saturating_sub`).
pub open spec fn saturating_sub(a: u64, b: u64) -> u64 {
    if a >= b {
        (a - b) as u64
    } else {
        0
    }
}

/// Whether `t` is a progress line of `--info=progress2`.
pub open spec fn is_progress_line(t: Seq<char>) -> bool {
    contains(t, "to-chk="@) || contains(t, "xfr#"@)
}

/// The file counts of the `to-chk=remaining/total` counter in `t`, as
/// `(total, total - remaining)`; a count that does not parse counts as 0.
pub open spec fn check_counts(t: Seq<char>) -> Option<(u64, u64)> {
    match find(t, "to-chk="@) {
        Some(pos) => {
            let nums = split(t.skip(pos + 7), '/');
            if nums.len() >= 2 {
                let remaining = or_zero(parse_u64(trim_end_char(nums[0], ')')));
                let w = words(trim_end_char(nums[1], ')'));
                let total = or_zero(parse_u64(
                    if w.len() > 0 {
                        w[0]
                    } else {
                        "0"@
                    },
                ));
                Some((total, saturating_sub(total, remaining)))
            } else {
                None
            }
        },
        None => None,
    }
}

/// The words of `t` before its first `%`, when it has one.
pub open spec fn words_before_percent(t: Seq<char>) -> Option<Seq<Seq<char>>> {
    match find_char(t, '%') {
        Some(p) => Some(words(t.take(p))),
        None => None,
    }
}

/// The byte count and percentage of a progress line: the last two words
/// before `%`, the first without its thousands separators.
pub open spec fn transfer_point(t: Seq<char>) -> Option<(u64, Seq<char>)> {
    match words_before_percent(t) {
        Some(parts) => if parts.len() >= 2 {
            match parse_u64(remove_char(parts[parts.len() - 2], ',')) {
                Some(b) => Some((b, parts[parts.len() - 1])),
                None => None,
            }
        } else {
            None
        },
        None => None,
    }
}

/// The file a line names, when it is not a status line: not empty, not
/// starting with `sending`, `receiving`, `sent` or `total`, and without `%`.
pub open spec fn named_file(t: Seq<char>) -> Option<Seq<char>> {
    if t.len() > 0 && !starts_with(t, "sending"@) && !starts_with(t, "receiving"@) && !starts_with(
        t,
        "sent"@,
    ) && !starts_with(t, "total"@) && !t.contains('%') {
        Some(t)
    } else {
        None
    }
}

/// What a line of rsync output says, once trimmed: a progress line gives the
/// transfer point and the file counts, an incremental-scan line nothing, and
/// any other line may name the current file.
pub open spec fn rsync_update(line: Seq<char>) -> RsyncUpdateView {
    let t = trim(line);
    if is_progress_line(t) {
        RsyncUpdateView { transfer: transfer_point(t), files: check_counts(t), ..no_update() }
    } else if contains(t, "ir-chk="@) {
        no_update()
    } else {
        RsyncUpdateView { current_file: named_file(t), ..no_update() }
    }
}

/// The value of a count, or 0 when it does not parse.
fn count_or_zero(s: &[char]) -> (n: u64)
    ensures
        n == or_zero(parse_u64(s@)),
{
    match parse_u64_chars(s) {
        Some(v) => v,
        None => 0,
    }
}

/// The counts after `to-chk=` (see `check_counts`).
fn counts_after(rest: &[char]) -> (r: Option<(u64, u64)>)
    ensures
        r == ({
            let nums = split(rest@, '/');
            if nums.len() >= 2 {
                let remaining = or_zero(parse_u64(trim_end_char(nums[0], ')')));
                let w = words(trim_end_char(nums[1], ')'));
                let total = or_zero(parse_u64(
                    if w.len() > 0 {
                        w[0]
                    } else {
                        "0"@
                    },
                ));
                Some((total, saturating_sub(total, remaining)))
            } else {
                None
            }
        }),
{
    let nums = split_exec(rest, '/');
    if nums.len() >= 2 {
        let n0 = trim_end_char_exec(nums[0].as_slice(), ')');
        let remaining = count_or_zero(n0.as_slice());
        let n1 = trim_end_char_exec(nums[1].as_slice(), ')');
        let w = words_of(n1.as_slice());
        let total = if w.len() > 0 {
            count_or_zero(w[0].as_slice())
        } else {
            let z = chars_of("0");
            count_or_zero(z.as_slice())
        };
        let done = if total >= remaining {
            total - remaining
        } else {
            0
        };
        Some((total, done))
    } else {
        None
    }
}

pub fn check_counts_of(t: &[char]) -> (r: Option<(u64, u64)>)
    ensures
        r == check_counts(t@),
{
    proof {
        lemma_find_found(t@, "to-chk="@);
        reveal_strlit("to-chk=");
    }
    match find_str(t, "to-chk=") {
        None => None,
        Some(pos) => {
            let len = t.len();
            assert(pos + 7 <= len);
            let rest = suffix(t, pos + 7);
            counts_after(rest.as_slice())
        },
    }
}

pub fn transfer_point_of(t: &[char]) -> (r: Option<TransferPoint>)
    ensures
        match r {
            Some(p) => transfer_point(t@) == Some((p.bytes, p.percent@)),
            None => transfer_point(t@) is None,
        },
{
    proof {
        lemma_find_char_found(t@, '%');
    }
    match find_char_exec(t, '%') {
        None => None,
        Some(p) => {
            let before = prefix(t, p);
            let parts = words_of(before.as_slice());
            let n = parts.len();
            if n >= 2 {
                let digits = remove_char_exec(parts[n - 2].as_slice(), ',');
                match parse_u64_chars(digits.as_slice()) {
                    Some(b) => Some(TransferPoint { bytes: b, percent: string_of(parts[n - 1].as_slice()) }),
                    None => None,
                }
            } else {
                None
            }
        },
    }
}

pub fn named_file_of(t: &[char]) -> (r: Option<String>)
    ensures
        match r {
            Some(f) => named_file(t@) == Some(f@),
            None => named_file(t@) is None,
        },
{
    if t.len() > 0 && !starts_with_str(t, "sending") && !starts_with_str(t, "receiving")
        && !starts_with_str(t, "sent") && !starts_with_str(t, "total") && !crate::text::contains_char(t, '%') {
        Some(string_of(t))
    } else {
        None
    }
}

fn empty_update() -> (u: RsyncUpdate)
    ensures
        u@ == no_update(),
{
    RsyncUpdate { transfer: None, percent: None, files: None, bytes_total: None, current_file: None }
}

/// What one segment of rsync's output says (see `rsync_update`).
pub fn parse_rsync_line(line: &str) -> (u: RsyncUpdate)
    ensures
        u@ == rsync_update(line@),
{
    let t = crate::text::trim_str(line);
    let t = t.as_slice();
    if contains_str(t, "to-chk=") || contains_str(t, "xfr#") {
        let mut u = empty_update();
        u.transfer = transfer_point_of(t);
        u.files = check_counts_of(t);
        u
    } else if contains_str(t, "ir-chk=") {
        empty_update()
    } else {
        let mut u = empty_update();
        u.current_file = named_file_of(t);
        u
    }
}

// ───────────────────────────── output lines and the log ─────────────────────────────

/// The trimmed, non-blank pieces of `pieces`, in order.
pub open spec fn nonblank_trimmed(pieces: Seq<Seq<char>>) -> Seq<Seq<char>>
    decreases pieces.len(),
{
    if pieces.len() == 0 {
        seq![]
    } else if trim(pieces.last()).len() == 0 {
        nonblank_trimmed(pieces.drop_last())
    } else {
        nonblank_trimmed(pieces.drop_last()).push(trim(pieces.last()))
    }
}

/// The segments of an output line that rsync rewrote with carriage returns:
/// the pieces between `\r`, trimmed, without the blank ones.
pub open spec fn line_segments(line: Seq<char>) -> Seq<Seq<char>> {
    nonblank_trimmed(split(line, '\r'))
}

/// Whether a logged piece of output is clean: not empty, trimmed, and free
/// of carriage returns.
pub open spec fn clean_segment(t: Seq<char>) -> bool {
    t.len() > 0 && trim(t) == t && !t.contains('\r')
}

proof fn lemma_nonblank_trimmed_clean(pieces: Seq<Seq<char>>)
    requires
        forall|i: int| 0 <= i < pieces.len() ==> !(#[trigger] pieces[i]).contains('\r'),
    ensures
        forall|i: int| 0 <= i < nonblank_trimmed(pieces).len() ==> clean_segment(#[trigger] nonblank_trimmed(pieces)[i]),
    decreases pieces.len(),
{
    if pieces.len() > 0 {
        let init = pieces.drop_last();
        assert forall|i: int| 0 <= i < init.len() implies !(#[trigger] init[i]).contains('\r') by {
            assert(init[i] == pieces[i]);
        }
        lemma_nonblank_trimmed_clean(init);
        assert(!pieces[pieces.len() - 1].contains('\r'));
        crate::text::lemma_trim_trimmed(pieces.last(), '\r');
        let t = trim(pieces.last());
        if t.len() > 0 {
            let r = nonblank_trimmed(pieces);
            assert(r == nonblank_trimmed(init).push(t));
            assert forall|i: int| 0 <= i < r.len() implies clean_segment(#[trigger] r[i]) by {
                if i < r.len() - 1 {
                    assert(r[i] == nonblank_trimmed(init)[i]);
                } else {
                    assert(r[i] == t);
                }
            }
        } else {
            assert(nonblank_trimmed(pieces) == nonblank_trimmed(init));
        }
    }
}

/// Every segment that a line of rsync output gives to the log (see
/// `segments_of`) is clean: not empty, trimmed and free of carriage returns.
pub proof fn segments_are_clean(line: Seq<char>)
    ensures
        forall|i: int| 0 <= i < line_segments(line).len() ==> clean_segment(#[trigger] line_segments(line)[i]),
{
    crate::text::lemma_split_pieces(line, '\r', seq![]);
    lemma_nonblank_trimmed_clean(split(line, '\r'));
}

/// The trimmed, non-blank pieces of a list of character strings.
pub fn nonblank_trimmed_of(pieces: &Vec<Vec<char>>) -> (r: Vec<String>)
    ensures
        views_of(r@) == nonblank_trimmed(Seq::new(pieces@.len(), |i: int| pieces@[i]@)),
{
    let ghost all = Seq::new(pieces@.len(), |i: int| pieces@[i]@);
    let mut r: Vec<String> = Vec::new();
    let mut i: usize = 0;
    while i < pieces.len()
        invariant
            i <= pieces@.len(),
            all == Seq::new(pieces@.len(), |j: int| pieces@[j]@),
            views_of(r@) == nonblank_trimmed(all.take(i as int)),
        decreases pieces@.len() - i,
    {
        assert(all.take(i + 1).drop_last() =~= all.take(i as int));
        assert(all.take(i + 1).last() == pieces@[i as int]@);
        let t = trim_chars(pieces[i].as_slice());
        if t.len() > 0 {
            r.push(string_of(t.as_slice()));
            assert(views_of(r@) =~= nonblank_trimmed(all.take(i + 1)));
        }
        i += 1;
    }
    assert(all.take(pieces@.len() as int) =~= all);
    r
}

/// The segments of an output line (see `line_segments`).
pub fn segments_of(line: &str) -> (r: Vec<String>)
    ensures
        views_of(r@) == line_segments(line@),
{
    let v = chars_of(line);
    let pieces = split_exec(v.as_slice(), '\r');
    assert(Seq::new(pieces@.len(), |i: int| pieces@[i]@) =~= split(line@, '\r'));
    nonblank_trimmed_of(&pieces)
}

/// The most output lines the log keeps before dropping the oldest.
pub open spec fn log_cap() -> nat {
    500
}

/// The log after `line` is added: the oldest line is dropped first when the
/// log holds more than 500 lines.
pub open spec fn logged(log: Seq<Seq<char>>, line: Seq<char>) -> Seq<Seq<char>> {
    if log.len() > log_cap() {
        log.drop_first().push(line)
    } else {
        log.push(line)
    }
}

/// Adds an output line to the log, dropping the oldest when it holds more
/// than 500.
pub fn push_log_line(log: &mut Vec<String>, line: String)
    ensures
        views_of(final(log)@) == logged(views_of(old(log)@), line@),
{
    if log.len() > 500 {
        log.remove(0);
    }
    log.push(line);
    assert(views_of(log@) =~= logged(views_of(old(log)@), line@));
}

/// The log stays bounded: a log of at most 501 lines still has at most 501
/// after another line is added, and the added line is the newest.
pub proof fn log_stays_bounded(log: Seq<Seq<char>>, line: Seq<char>)
    requires
        log.len() <= log_cap() + 1,
    ensures
        logged(log, line).len() <= log_cap() + 1,
        logged(log, line).last() == line,
{
}

// ───────────────────────────── running the jobs ─────────────────────────────

/// The enabled jobs of a job list, in order.
pub open spec fn enabled_jobs(jobs: Seq<JobView>) -> Seq<JobView>
    decreases jobs.len(),
{
    if jobs.len() == 0 {
        seq![]
    } else if jobs.last().enabled {
        enabled_jobs(jobs.drop_last()).push(jobs.last())
    } else {
        enabled_jobs(jobs.drop_last())
    }
}

/// The enabled jobs of `config`, in order.
pub fn enabled_jobs_of(config: &Config) -> (jobs: Vec<SyncJob>)
    ensures
        job_views(jobs@) == enabled_jobs(config@.jobs),
{
    let ghost all = config@.jobs;
    let mut out: Vec<SyncJob> = Vec::new();
    let mut i: usize = 0;
    while i < config.jobs.len()
        invariant
            i <= config.jobs@.len(),
            all == config@.jobs,
            job_views(out@) == enabled_jobs(all.take(i as int)),
        decreases config.jobs@.len() - i,
    {
        assert(all.take(i + 1).drop_last() =~= all.take(i as int));
        assert(all.take(i + 1).last() == config.jobs@[i as int]@);
        if config.jobs[i].enabled {
            let j = copy_job(&config.jobs[i]);
            let ghost jv = j@;
            out.push(j);
            assert(job_views(out@) =~= enabled_jobs(all.take(i + 1)));
        }
        i += 1;
    }
    assert(all.take(config.jobs@.len() as int) =~= all);
    out
}

/// What the backup needs done next.
pub enum BackupAction {
    /// Job `index`, named `name`, starts: show it and create its destination
    /// folder `dest`; report with `folder_ready` or `folder_failed`.
    StartJob { index: usize, name: String, dest: String },
    /// Run rsync with these arguments and read its output; report with
    /// `spawn_failed` or `job_ended`.
    RunRsync { args: Vec<String> },
    /// Every job is done: take the snapshot (see `dated_snapshot_command`).
    Snapshot,
    /// The backup stops with this error.
    Fail(String),
    /// The backup stops because it was cancelled.
    Stop,
}

/// How an rsync run ended.
pub enum RsyncEnd {
    /// Waiting for it failed with this error.
    WaitFailed(String),
    /// It exited; `code` is `None` when a signal ended it.
    Exited { success: bool, code: Option<i32> },
}

/// A backup in progress: the enabled jobs run one after the other into the
/// drive, then a read-only snapshot of the drive is taken. The first failing
/// job stops it; so does a cancellation, which also skips the snapshot unless
/// `snapshot_on_cancel`.
pub struct BackupRun {
    pub jobs: Vec<SyncJob>,
    pub root: String,
    /// The archive flag given to rsync.
    pub flag: String,
    pub snapshot_on_cancel: bool,
    /// Index of the job running or about to run.
    pub current: usize,
    /// Whether the run has stopped or reached the snapshot.
    pub over: bool,
}

/// The message when a destination folder could not be created.
pub open spec fn folder_failure(dest: Seq<char>, reason: Seq<char>) -> Seq<char> {
    "mkdir "@ + dest + ": "@ + reason
}

/// The message when rsync could not be started.
pub open spec fn rsync_spawn_failure(reason: Seq<char>) -> Seq<char> {
    "failed to spawn rsync: "@ + reason
}

/// The message when waiting for rsync failed.
pub open spec fn rsync_wait_failure(reason: Seq<char>) -> Seq<char> {
    "rsync wait error: "@ + reason
}

/// The message when rsync exited with a failure code.
pub open spec fn rsync_exit_failure(code: int, job: Seq<char>) -> Seq<char> {
    "rsync exited with code "@ + crate::text::signed_decimal(code) + " for job \""@ + job + "\""@
}

/// Whether an rsync exit counts as a failure: any unsuccessful exit except
/// code 24, which only says that source files vanished while copying.
pub open spec fn exit_fails(success: bool, code: Option<i32>) -> bool {
    !success && match code {
        Some(c) => c != 24,
        None => true,
    }
}

fn text2(a: &str, b: &str) -> (s: String)
    ensures
        s@ == a@ + b@,
{
    let mut v: Vec<char> = Vec::new();
    push_str(&mut v, a);
    push_str(&mut v, b);
    string_of(v.as_slice())
}

fn text3(a: &str, b: &str, c: &str) -> (s: String)
    ensures
        s@ == a@ + b@ + c@,
{
    let mut v: Vec<char> = Vec::new();
    push_str(&mut v, a);
    push_str(&mut v, b);
    push_str(&mut v, c);
    string_of(v.as_slice())
}

/// A backup in progress, as plain values.
pub struct RunView {
    pub jobs: Seq<JobView>,
    pub root: Seq<char>,
    pub flag: Seq<char>,
    pub snapshot_on_cancel: bool,
    pub current: nat,
    pub over: bool,
}

impl View for BackupRun {
    type V = RunView;

    open spec fn view(&self) -> RunView {
        RunView {
            jobs: job_views(self.jobs@),
            root: self.root@,
            flag: self.flag@,
            snapshot_on_cancel: self.snapshot_on_cancel,
            current: self.current as nat,
            over: self.over,
        }
    }
}

/// What a backup action says, as plain values.
pub enum StepAction {
    StartJob { index: nat, name: Seq<char>, dest: Seq<char> },
    RunRsync(Seq<Seq<char>>),
    Snapshot,
    Fail(Seq<char>),
    Stop,
}

impl View for BackupAction {
    type V = StepAction;

    open spec fn view(&self) -> StepAction {
        match self {
            BackupAction::StartJob { index, name, dest } => StepAction::StartJob {
                index: *index as nat,
                name: name@,
                dest: dest@,
            },
            BackupAction::RunRsync { args } => StepAction::RunRsync(views_of(args@)),
            BackupAction::Snapshot => StepAction::Snapshot,
            BackupAction::Fail(m) => StepAction::Fail(m@),
            BackupAction::Stop => StepAction::Stop,
        }
    }
}

pub open spec fn opt_action(a: Option<BackupAction>) -> Option<StepAction> {
    match a {
        Some(x) => Some(x@),
        None => None,
    }
}

/// What a cancellation does: the run is over, and the snapshot is taken only
/// when that was asked for.
pub open spec fn cancel_action(r: RunView) -> StepAction {
    if r.snapshot_on_cancel {
        StepAction::Snapshot
    } else {
        StepAction::Stop
    }
}

/// The step before job `r.current` (see `BackupRun::next_step`).
pub open spec fn next_step_spec(r: RunView, cancelled: bool) -> (RunView, StepAction) {
    if cancelled {
        (RunView { over: true, ..r }, cancel_action(r))
    } else if r.current >= r.jobs.len() {
        (RunView { over: true, ..r }, StepAction::Snapshot)
    } else {
        (
            r,
            StepAction::StartJob {
                index: r.current,
                name: r.jobs[r.current as int].name,
                dest: join(r.root, r.jobs[r.current as int].destination),
            },
        )
    }
}

/// The rsync run of job `r.current` (see `BackupRun::folder_ready`).
pub open spec fn folder_ready_spec(r: RunView) -> StepAction {
    StepAction::RunRsync(rsync_arg_list(r.flag, r.jobs[r.current as int], r.root))
}

/// What the end of rsync for job `r.current` leads to (see
/// `BackupRun::job_ended`): nothing more to do for the job when it went well.
pub open spec fn job_ended_spec(r: RunView, end: RsyncEnd, cancelled: bool) -> (RunView, Option<StepAction>) {
    if cancelled {
        (RunView { over: true, ..r }, Some(cancel_action(r)))
    } else {
        match end {
            RsyncEnd::WaitFailed(e) => (RunView { over: true, ..r }, Some(StepAction::Fail(rsync_wait_failure(e@)))),
            RsyncEnd::Exited { success, code } => if exit_fails(success, code) {
                (
                    RunView { over: true, ..r },
                    Some(
                        StepAction::Fail(
                            rsync_exit_failure(
                                match code {
                                    Some(c) => c as int,
                                    None => -1,
                                },
                                r.jobs[r.current as int].name,
                            ),
                        ),
                    ),
                )
            } else {
                (RunView { current: r.current + 1, ..r }, None)
            },
        }
    }
}

/// The end of an rsync run that went well.
pub open spec fn clean_exit() -> RsyncEnd {
    RsyncEnd::Exited { success: true, code: Some(0) }
}

/// The actions of a backup in which every folder can be made, rsync always
/// exits well and nothing is cancelled, from the state `r` on.
pub open spec fn smooth_run(r: RunView) -> Seq<StepAction>
    decreases r.jobs.len() - r.current,
{
    let (r1, a) = next_step_spec(r, false);
    if r.current < r.jobs.len() {
        seq![a, folder_ready_spec(r1)] + smooth_run(job_ended_spec(r1, clean_exit(), false).0)
    } else {
        seq![a]
    }
}

/// Job `k` started and run: its name, its folder on the drive, and rsync.
pub open spec fn job_actions(jobs: Seq<JobView>, root: Seq<char>, flag: Seq<char>, k: int) -> Seq<StepAction> {
    seq![
        StepAction::StartJob { index: k as nat, name: jobs[k].name, dest: join(root, jobs[k].destination) },
        StepAction::RunRsync(rsync_arg_list(flag, jobs[k], root)),
    ]
}

/// The jobs from `k` on, each started and run in turn.
pub open spec fn jobs_from(jobs: Seq<JobView>, root: Seq<char>, flag: Seq<char>, k: int) -> Seq<StepAction>
    decreases jobs.len() - k,
{
    if 0 <= k < jobs.len() {
        job_actions(jobs, root, flag, k) + jobs_from(jobs, root, flag, k + 1)
    } else {
        seq![]
    }
}

/// Every job runs, in order, before the snapshot: a backup in which nothing
/// fails and nothing is cancelled starts each job from the current one on, in
/// the order of the list, into its folder on the drive, runs rsync for it,
/// and then takes the snapshot.
pub proof fn jobs_run_in_order(r: RunView)
    ensures
        smooth_run(r) == jobs_from(r.jobs, r.root, r.flag, r.current as int) + seq![StepAction::Snapshot],
    decreases r.jobs.len() - r.current,
{
    if r.current < r.jobs.len() {
        let r2 = RunView { current: r.current + 1, ..r };
        jobs_run_in_order(r2);
        assert(smooth_run(r) =~= job_actions(r.jobs, r.root, r.flag, r.current as int) + smooth_run(r2));
        assert(jobs_from(r.jobs, r.root, r.flag, r.current as int) =~= job_actions(
            r.jobs,
            r.root,
            r.flag,
            r.current as int,
        ) + jobs_from(r.jobs, r.root, r.flag, (r.current + 1) as int));
    } else {
        assert(jobs_from(r.jobs, r.root, r.flag, r.current as int) =~= Seq::<StepAction>::empty());
    }
}

impl BackupRun {
    /// A backup of the enabled jobs of `config` onto the drive at `root`.
    pub fn new(config: &Config, root: &str, flag: &str, snapshot_on_cancel: bool) -> (r: BackupRun)
        ensures
            job_views(r.jobs@) == enabled_jobs(config@.jobs),
            r.root@ == root@,
            r.flag@ == flag@,
            r.snapshot_on_cancel == snapshot_on_cancel,
            r.current == 0,
            !r.over,
            r@ == (RunView {
                jobs: enabled_jobs(config@.jobs),
                root: root@,
                flag: flag@,
                snapshot_on_cancel,
                current: 0,
                over: false,
            }),
    {
        BackupRun {
            jobs: enabled_jobs_of(config),
            root: owned(root),
            flag: owned(flag),
            snapshot_on_cancel,
            current: 0,
            over: false,
        }
    }

    /// The number of jobs the backup runs.
    pub fn total_jobs(&self) -> (n: usize)
        ensures
            n == self.jobs@.len(),
    {
        self.jobs.len()
    }

    /// What comes before job `current`: if the backup was cancelled it stops
    /// (or takes the snapshot when `snapshot_on_cancel`); otherwise the job
    /// starts, or, when there is none left, the snapshot is taken.
    pub fn next_step(&mut self, cancelled: bool) -> (a: BackupAction)
        requires
            old(self).current <= old(self).jobs@.len(),
            !old(self).over,
        ensures
            final(self).jobs@ == old(self).jobs@,
            final(self).root == old(self).root,
            final(self).flag == old(self).flag,
            final(self).snapshot_on_cancel == old(self).snapshot_on_cancel,
            final(self).current == old(self).current,
            cancelled ==> final(self).over && (if old(self).snapshot_on_cancel {
                a is Snapshot
            } else {
                a is Stop
            }),
            !cancelled && old(self).current == old(self).jobs@.len() ==> final(self).over && a is Snapshot,
            !cancelled && old(self).current < old(self).jobs@.len() ==> !final(self).over && (
            a matches BackupAction::StartJob { index, name, dest } && index == old(self).current
                && name@ == old(self).jobs@[index as int]@.name && dest@ == join(
                old(self).root@,
                old(self).jobs@[index as int]@.destination,
            )),
            (final(self)@, a@) == next_step_spec(old(self)@, cancelled),
    {
        if cancelled {
            self.over = true;
            if self.snapshot_on_cancel {
                return BackupAction::Snapshot;
            }
            return BackupAction::Stop;
        }
        if self.current == self.jobs.len() {
            self.over = true;
            return BackupAction::Snapshot;
        }
        let job = &self.jobs[self.current];
        let mut d: Vec<char> = Vec::new();
        push_join(&mut d, self.root.as_str(), job.destination.as_str());
        BackupAction::StartJob {
            index: self.current,
            name: job.name.clone(),
            dest: string_of(d.as_slice()),
        }
    }

    /// The destination folder of the current job exists: run rsync for it.
    pub fn folder_ready(&self) -> (a: BackupAction)
        requires
            self.current < self.jobs@.len(),
        ensures
            a matches BackupAction::RunRsync { args } && views_of(args@) == rsync_arg_list(
                self.flag@,
                self.jobs@[self.current as int]@,
                self.root@,
            ),
            a@ == folder_ready_spec(self@),
    {
        BackupAction::RunRsync {
            args: rsync_args_with_flag(self.flag.as_str(), &self.jobs[self.current], self.root.as_str()),
        }
    }

    /// The destination folder `dest` could not be created: the backup fails.
    pub fn folder_failed(&mut self, dest: &str, reason: &str) -> (a: BackupAction)
        ensures
            final(self).over,
            final(self).current == old(self).current,
            final(self).jobs@ == old(self).jobs@,
            a matches BackupAction::Fail(m) && m@ == folder_failure(dest@, reason@),
    {
        self.over = true;
        let mut v: Vec<char> = Vec::new();
        push_str(&mut v, "mkdir ");
        push_str(&mut v, dest);
        push_str(&mut v, ": ");
        push_str(&mut v, reason);
        BackupAction::Fail(string_of(v.as_slice()))
    }

    /// rsync could not be started: the backup fails.
    pub fn spawn_failed(&mut self, reason: &str) -> (a: BackupAction)
        ensures
            final(self).over,
            final(self).current == old(self).current,
            final(self).jobs@ == old(self).jobs@,
            a matches BackupAction::Fail(m) && m@ == rsync_spawn_failure(reason@),
    {
        self.over = true;
        BackupAction::Fail(text2("failed to spawn rsync: ", reason))
    }

    /// rsync ended. A cancellation stops the backup (see `next_step`); a
    /// failed wait or a failing exit (see `exit_fails`) makes it fail;
    /// otherwise the job is done and `None` says to go on with `next_step`.
    pub fn job_ended(&mut self, end: RsyncEnd, cancelled: bool) -> (a: Option<BackupAction>)
        requires
            old(self).current < old(self).jobs@.len(),
            !old(self).over,
        ensures
            final(self).jobs@ == old(self).jobs@,
            final(self).root == old(self).root,
            final(self).flag == old(self).flag,
            final(self).snapshot_on_cancel == old(self).snapshot_on_cancel,
            cancelled ==> final(self).over && final(self).current == old(self).current && (
            if old(self).snapshot_on_cancel {
                a matches Some(BackupAction::Snapshot)
            } else {
                a matches Some(BackupAction::Stop)
            }),
            !cancelled ==> match end {
                RsyncEnd::WaitFailed(e) => final(self).over && (a matches Some(BackupAction::Fail(m))
                    && m@ == rsync_wait_failure(e@)),
                RsyncEnd::Exited { success, code } => if exit_fails(success, code) {
                    final(self).over && (a matches Some(BackupAction::Fail(m)) && m@
                        == rsync_exit_failure(
                        match code {
                            Some(c) => c as int,
                            None => -1,
                        },
                        old(self).jobs@[old(self).current as int]@.name,
                    ))
                } else {
                    a is None && !final(self).over && final(self).current == old(self).current + 1
                },
            },
            (final(self)@, opt_action(a)) == job_ended_spec(old(self)@, end, cancelled),
    {
        if cancelled {
            self.over = true;
            if self.snapshot_on_cancel {
                return Some(BackupAction::Snapshot);
            }
            return Some(BackupAction::Stop);
        }
        match end {
            RsyncEnd::WaitFailed(e) => {
                self.over = true;
                Some(BackupAction::Fail(text2("rsync wait error: ", e.as_str())))
            },
            RsyncEnd::Exited { success, code } => {
                let c: i32 = match code {
                    Some(c) => c,
                    None => -1,
                };
                if !success && c != 24 {
                    self.over = true;
                    let mut v: Vec<char> = Vec::new();
                    push_str(&mut v, "rsync exited with code ");
                    crate::text::push_signed_decimal(&mut v, c);
                    push_str(&mut v, " for job \"");
                    push_str(&mut v, self.jobs[self.current].name.as_str());
                    push_str(&mut v, "\"");
                    Some(BackupAction::Fail(string_of(v.as_slice())))
                } else {
                    let total = self.jobs.len();
                    assert(self.current < total);
                    self.current = self.current + 1;
                    None
                }
            },
        }
    }
}

// ───────────────────────────── the snapshot ─────────────────────────────

/// The command that takes the snapshot of a drive.
pub struct SnapshotCommand {
    /// The snapshot's name.
    pub name: String,
    /// The folder that holds the snapshots, to be created first.
    pub dir: String,
    /// The program and its arguments.
    pub argv: Vec<String>,
    /// The folder to run it in, when it matters.
    pub cwd: Option<String>,
}

/// The snapshot command for a drive at `root` when it is taken on `date`:
/// `doas btrfs subvolume snapshot -r . <root>/snapshots/<date>`, run at the
/// root of the drive.
pub open spec fn dated_snapshot(root: Seq<char>, date: Seq<char>) -> (Seq<Seq<char>>, Seq<char>) {
    let dir = join(root, "snapshots"@);
    (seq!["doas"@, "btrfs"@, "subvolume"@, "snapshot"@, "-r"@, "."@, join(dir, date)], dir)
}

/// The snapshot command for a drive at `root` named `name`.
pub fn dated_snapshot_command(root: &str, name: String) -> (c: SnapshotCommand)
    ensures
        (views_of(c.argv@), c.dir@) == dated_snapshot(root@, name@),
        c.name@ == name@,
        c.cwd matches Some(d) && d@ == root@,
{
    let mut dv: Vec<char> = Vec::new();
    push_join(&mut dv, root, "snapshots");
    let dir = string_of(dv.as_slice());
    let mut tv: Vec<char> = Vec::new();
    push_join(&mut tv, dir.as_str(), name.as_str());
    let target = string_of(tv.as_slice());
    let mut argv: Vec<String> = Vec::new();
    let parts = ["doas", "btrfs", "subvolume", "snapshot", "-r", "."];
    let mut i: usize = 0;
    while i < 6
        invariant
            i <= 6,
            views_of(argv@) == Seq::new(i as nat, |k: int| parts@[k]@),
        decreases 6 - i,
    {
        let s = owned(parts[i]);
        proof {
            crate::text::lemma_views_push(argv@, s);
        }
        argv.push(s);
        assert(views_of(argv@) =~= Seq::new((i + 1) as nat, |k: int| parts@[k]@));
        i += 1;
    }
    proof {
        crate::text::lemma_views_push(argv@, target);
    }
    argv.push(target);
    assert(views_of(argv@) =~= dated_snapshot(root@, name@).0);
    SnapshotCommand { name, dir, argv, cwd: Some(owned(root)) }
}

/// How the snapshot command went.
pub enum SnapshotOutcome {
    /// It could not be started.
    SpawnFailed(String),
    /// It exited unsuccessfully; with what `findmnt` and `btrfs subvolume
    /// show` printed about the drive, when they ran.
    Failed { code: Option<i32>, stderr: Vec<u8>, mount_info: Option<Vec<u8>>, subvolume_info: Option<Vec<u8>> },
    Succeeded,
}

/// The first `n` of `ls`.
pub open spec fn first_lines(ls: Seq<Seq<char>>, n: nat) -> Seq<Seq<char>> {
    if ls.len() <= n {
        ls
    } else {
        ls.take(n as int)
    }
}

/// The log lines of how a dated snapshot went: on success its name; when it
/// could not start, the error; when it failed, its trimmed error output (or
/// its exit code when there is none), the drive's mount line when `findmnt`
/// printed one, and the first six lines `btrfs subvolume show` printed.
pub open spec fn snapshot_report_lines(name: Seq<char>, outcome: SnapshotOutcome) -> Seq<Seq<char>> {
    match outcome {
        SnapshotOutcome::SpawnFailed(e) => seq!["Warning: btrfs snapshot failed: "@ + e@],
        SnapshotOutcome::Succeeded => seq!["Snapshot created: "@ + name],
        SnapshotOutcome::Failed { code, stderr, mount_info, subvolume_info } => {
            let err = trim(lossy_text(stderr@));
            let first = if err.len() == 0 {
                "Warning: btrfs snapshot exited "@ + crate::text::signed_decimal(
                    match code {
                        Some(c) => c as int,
                        None => -1,
                    },
                )
            } else {
                "Warning: btrfs snapshot failed: "@ + err
            };
            let mount = match mount_info {
                Some(m) => if trim(lossy_text(m@)).len() > 0 {
                    seq!["  mount: "@ + trim(lossy_text(m@))]
                } else {
                    seq![]
                },
                None => seq![],
            };
            let show = match subvolume_info {
                Some(s) => {
                    let ls = first_lines(crate::text::lines(lossy_text(s@)), 6);
                    Seq::new(ls.len(), |i: int| "  "@ + ls[i])
                },
                None => seq![],
            };
            seq![first] + mount + show
        },
    }
}

/// The log lines of how a dated snapshot went (see `snapshot_report_lines`).
pub fn snapshot_report(name: &str, outcome: &SnapshotOutcome) -> (r: Vec<String>)
    ensures
        views_of(r@) == snapshot_report_lines(name@, *outcome),
{
    let mut out: Vec<String> = Vec::new();
    match outcome {
        SnapshotOutcome::SpawnFailed(e) => {
            let l = text2("Warning: btrfs snapshot failed: ", e.as_str());
            proof {
                crate::text::lemma_views_push(out@, l);
            }
            out.push(l);
        },
        SnapshotOutcome::Succeeded => {
            let l = text2("Snapshot created: ", name);
            proof {
                crate::text::lemma_views_push(out@, l);
            }
            out.push(l);
        },
        SnapshotOutcome::Failed { code, stderr, mount_info, subvolume_info } => {
            let errs = crate::bytes::utf8_lossy(stderr.as_slice());
            let err = crate::text::trim_str(errs.as_str());
            let mut v: Vec<char> = Vec::new();
            if err.len() == 0 {
                push_str(&mut v, "Warning: btrfs snapshot exited ");
                let c: i32 = match code {
                    Some(c) => *c,
                    None => -1,
                };
                crate::text::push_signed_decimal(&mut v, c);
            } else {
                push_str(&mut v, "Warning: btrfs snapshot failed: ");
                push_chars(&mut v, err.as_slice());
            }
            let l = string_of(v.as_slice());
            let ghost err_s = trim(lossy_text(stderr@));
            assert(err@ == err_s);
            assert(l@ =~= (if err_s.len() == 0 {
                "Warning: btrfs snapshot exited "@ + crate::text::signed_decimal(
                    match code {
                        Some(c) => *c as int,
                        None => -1,
                    },
                )
            } else {
                "Warning: btrfs snapshot failed: "@ + err_s
            }));
            proof {
                crate::text::lemma_views_push(out@, l);
            }
            out.push(l);
            let ghost after_first = views_of(out@);
            assert(after_first =~= seq![l@]);
            match mount_info {
                Some(m) => {
                    let ms = crate::bytes::utf8_lossy(m.as_slice());
                    let mt = crate::text::trim_str(ms.as_str());
                    if mt.len() > 0 {
                        let mut w: Vec<char> = Vec::new();
                        push_str(&mut w, "  mount: ");
                        push_chars(&mut w, mt.as_slice());
                        let ml = string_of(w.as_slice());
                        assert(ml@ =~= "  mount: "@ + trim(lossy_text(m@)));
                        proof {
                            crate::text::lemma_views_push(out@, ml);
                        }
                        out.push(ml);
                    }
                },
                None => {},
            }
            let ghost after_mount = views_of(out@);
            assert(after_mount =~= after_first + match mount_info {
                Some(m) => if trim(lossy_text(m@)).len() > 0 {
                    seq!["  mount: "@ + trim(lossy_text(m@))]
                } else {
                    seq![]
                },
                None => seq![],
            });
            match subvolume_info {
                Some(s) => {
                    let ss = crate::bytes::utf8_lossy(s.as_slice());
                    let sv = chars_of(ss.as_str());
                    let ls = crate::text::lines_of(sv.as_slice());
                    let ghost all = first_lines(crate::text::lines(lossy_text(s@)), 6);
                    let n = if ls.len() <= 6 {
                        ls.len()
                    } else {
                        6
                    };
                    let mut i: usize = 0;
                    while i < n
                        invariant
                            n <= ls@.len(),
                            ls@.len() == crate::text::lines(lossy_text(s@)).len(),
                            forall|k: int| 0 <= k < ls@.len() ==> #[trigger] ls@[k]@ == crate::text::lines(lossy_text(s@))[k],
                            all == first_lines(crate::text::lines(lossy_text(s@)), 6),
                            n == all.len(),
                            i <= n,
                            views_of(out@) == after_mount + Seq::new(i as nat, |k: int| "  "@ + all[k]),
                        decreases n - i,
                    {
                        let mut w: Vec<char> = Vec::new();
                        push_str(&mut w, "  ");
                        push_chars(&mut w, ls[i].as_slice());
                        let sl = string_of(w.as_slice());
                        assert(all[i as int] == ls@[i as int]@);
                        assert(sl@ =~= "  "@ + all[i as int]);
                        proof {
                            crate::text::lemma_views_push(out@, sl);
                        }
                        out.push(sl);
                        assert(views_of(out@) =~= after_mount + Seq::new((i + 1) as nat, |k: int| "  "@ + all[k]));
                        i += 1;
                    }
                },
                None => {},
            }
            assert(views_of(out@) =~= snapshot_report_lines(name@, *outcome));
        },
    }
    assert(views_of(out@) =~= snapshot_report_lines(name@, *outcome));
    out
}


/// The message once a backup ends: cancelled, failed with its error, or
/// complete with the time it took.
pub open spec fn backup_end_message_spec(cancelled: bool, error: Option<Seq<char>>, elapsed: nat) -> Seq<char> {
    if cancelled {
        "Backup cancelled."@
    } else if error is Some {
        "Backup failed: "@ + error->0
    } else {
        "Backup complete in "@ + duration_text(elapsed) + "!"@
    }
}


// ───────────────────────────── progress ─────────────────────────────

/// The counted part of a running backup's progress: which job runs and
/// under what name, what rsync has counted of it, and how the backup ended.
#[derive(Clone, Debug)]
pub struct BackupStatus {
    pub current_job: usize,
    pub total_jobs: usize,
    pub job_name: String,
    pub files_transferred: u64,
    pub files_total: u64,
    pub bytes_transferred: u64,
    pub bytes_total: u64,
    pub current_file: String,
    pub finished: bool,
    pub cancelled: bool,
    pub error: Option<String>,
}

/// A `BackupStatus` as plain values.
pub struct StatusView {
    pub current_job: nat,
    pub total_jobs: nat,
    pub job_name: Seq<char>,
    pub files_transferred: u64,
    pub files_total: u64,
    pub bytes_transferred: u64,
    pub bytes_total: u64,
    pub current_file: Seq<char>,
    pub finished: bool,
    pub cancelled: bool,
    pub error: Option<Seq<char>>,
}

impl View for BackupStatus {
    type V = StatusView;

    open spec fn view(&self) -> StatusView {
        StatusView {
            current_job: self.current_job as nat,
            total_jobs: self.total_jobs as nat,
            job_name: self.job_name@,
            files_transferred: self.files_transferred,
            files_total: self.files_total,
            bytes_transferred: self.bytes_transferred,
            bytes_total: self.bytes_total,
            current_file: self.current_file@,
            finished: self.finished,
            cancelled: self.cancelled,
            error: opt_view(self.error),
        }
    }
}

/// The status before any backup: every count zero, every text empty.
pub open spec fn idle_status() -> StatusView {
    StatusView {
        current_job: 0,
        total_jobs: 0,
        job_name: seq![],
        files_transferred: 0,
        files_total: 0,
        bytes_transferred: 0,
        bytes_total: 0,
        current_file: seq![],
        finished: false,
        cancelled: false,
        error: None,
    }
}

/// What the status shows once the backup takes action `a`: a starting job
/// becomes the current one, with its counts and file cleared; a failure
/// keeps its message; a stop, or the snapshot that ends the backup, counts
/// every job as done, and the snapshot marks the backup finished. Running
/// rsync changes nothing by itself.
pub open spec fn status_after(s: StatusView, a: StepAction) -> StatusView {
    match a {
        StepAction::StartJob { index, name, .. } => StatusView {
            current_job: index,
            job_name: name,
            files_transferred: 0,
            files_total: 0,
            bytes_transferred: 0,
            bytes_total: 0,
            current_file: seq![],
            ..s
        },
        StepAction::RunRsync(_) => s,
        StepAction::Fail(m) => StatusView { error: Some(m), ..s },
        StepAction::Stop => StatusView { current_job: s.total_jobs, ..s },
        StepAction::Snapshot => StatusView { finished: true, current_job: s.total_jobs, ..s },
    }
}

/// What the status shows after a line of rsync output said `u`: the file
/// counts of its `to-chk=` counter and the file being copied, where it
/// names them.
pub open spec fn status_counted(s: StatusView, u: RsyncUpdateView) -> StatusView {
    let s1 = match u.files {
        Some((total, done)) => StatusView { files_total: total, files_transferred: done, ..s },
        None => s,
    };
    match u.current_file {
        Some(f) => StatusView { current_file: f, ..s1 },
        None => s1,
    }
}

impl BackupStatus {
    /// The status before any backup (see `idle_status`).
    pub fn new() -> (s: BackupStatus)
        ensures
            s@ == idle_status(),
    {
        BackupStatus {
            current_job: 0,
            total_jobs: 0,
            job_name: String::new(),
            files_transferred: 0,
            files_total: 0,
            bytes_transferred: 0,
            bytes_total: 0,
            current_file: String::new(),
            finished: false,
            cancelled: false,
            error: None,
        }
    }

    /// A backup of `total_jobs` jobs starts: none has run yet, and it is
    /// neither finished, cancelled nor failed. The rest stays until the
    /// first job starts.
    pub fn begin(&mut self, total_jobs: usize)
        ensures
            final(self)@ == (StatusView {
                current_job: 0,
                total_jobs: total_jobs as nat,
                finished: false,
                cancelled: false,
                error: None,
                ..old(self)@
            }),
    {
        self.total_jobs = total_jobs;
        self.current_job = 0;
        self.finished = false;
        self.cancelled = false;
        self.error = None;
    }

    /// Takes in the action the backup takes next (see `status_after`).
    pub fn record(&mut self, a: &BackupAction)
        ensures
            final(self)@ == status_after(old(self)@, a@),
    {
        match a {
            BackupAction::StartJob { index, name, .. } => {
                self.current_job = *index;
                self.job_name = name.clone();
                self.files_transferred = 0;
                self.files_total = 0;
                self.bytes_transferred = 0;
                self.bytes_total = 0;
                self.current_file = String::new();
            },
            BackupAction::RunRsync { .. } => {},
            BackupAction::Fail(m) => {
                self.error = Some(m.clone());
            },
            BackupAction::Stop => {
                self.current_job = self.total_jobs;
            },
            BackupAction::Snapshot => {
                self.finished = true;
                self.current_job = self.total_jobs;
            },
        }
    }

    /// Takes in what a line of rsync output said (see `status_counted`).
    pub fn record_counts(&mut self, u: &RsyncUpdate)
        ensures
            final(self)@ == status_counted(old(self)@, u@),
    {
        match u.files {
            Some((total, done)) => {
                self.files_total = total;
                self.files_transferred = done;
            },
            None => {},
        }
        match &u.current_file {
            Some(f) => {
                self.current_file = f.clone();
            },
            None => {},
        }
    }
}


// ───────────────────────────── what the pieces promise ─────────────────────────────

/// A line names the file being copied only when it is nothing else: the
/// file is the whole trimmed line, which is not empty, holds no `%` (so a
/// progress line, with or without its counter, never does), and starts with
/// none of `sending`, `receiving`, `sent` and `total`. Conversely, a line of
/// that kind that carries no `to-chk=`, `xfr#` or `ir-chk=` counter does name
/// its file.
pub proof fn current_file_is_a_plain_line(line: Seq<char>)
    ensures
        trim(line).contains('%') ==> rsync_update(line).current_file is None,
        rsync_update(line).current_file matches Some(f) ==> f == trim(line) && f.len() > 0
            && !f.contains('%') && !starts_with(f, "sending"@) && !starts_with(f, "receiving"@)
            && !starts_with(f, "sent"@) && !starts_with(f, "total"@),
        ({
            let t = trim(line);
            &&& t.len() > 0
            &&& !t.contains('%')
            &&& !starts_with(t, "sending"@)
            &&& !starts_with(t, "receiving"@)
            &&& !starts_with(t, "sent"@)
            &&& !starts_with(t, "total"@)
            &&& !contains(t, "to-chk="@)
            &&& !contains(t, "xfr#"@)
            &&& !contains(t, "ir-chk="@)
        }) ==> rsync_update(line).current_file == Some(trim(line)),
{
}

/// An argument holding any character that a POSIX shell reads specially
/// outside quotes — a blank, `"`, `'`, `\`, `$`, `` ` ``, `(`, `)`, `&`,
/// `|`, `;`, `<`, `>`, `!`, `#`, `~`, `*` or `?` — is written inside single
/// quotes.
pub proof fn special_characters_are_quoted(s: Seq<char>, i: int)
    requires
        0 <= i < s.len(),
        ({
            let c = s[i];
            ||| c == ' '
            ||| c == '\t'
            ||| c == '\n'
            ||| is_white_space(c)
            ||| c == '"'
            ||| c == '\''
            ||| c == '\\'
            ||| c == '$'
            ||| c == '`'
            ||| c == '('
            ||| c == ')'
            ||| c == '&'
            ||| c == '|'
            ||| c == ';'
            ||| c == '<'
            ||| c == '>'
            ||| c == '!'
            ||| c == '#'
            ||| c == '~'
            ||| c == '*'
            ||| c == '?'
        }),
    ensures
        shell_quoted(s).len() >= 2,
        shell_quoted(s)[0] == '\'',
        shell_quoted(s).last() == '\'',
{
    assert(needs_quoting(s[i]));
}

/// An argument made only of letters, digits and `/ - _ . = , + : @ %` is
/// written as it is, without quotes.
pub proof fn plain_arguments_are_left_alone(s: Seq<char>)
    requires
        forall|i: int|
            0 <= i < s.len() ==> {
                let c = #[trigger] s[i];
                ||| ('a' <= c && c <= 'z')
                ||| ('A' <= c && c <= 'Z')
                ||| ('0' <= c && c <= '9')
                ||| c == '/'
                ||| c == '-'
                ||| c == '_'
                ||| c == '.'
                ||| c == '='
                ||| c == ','
                ||| c == '+'
                ||| c == ':'
                ||| c == '@'
                ||| c == '%'
            },
    ensures
        shell_quoted(s) == s,
{
    assert forall|i: int| 0 <= i < s.len() implies !needs_quoting(#[trigger] s[i]) by {
        let c = s[i];
        assert(!is_white_space(c));
    }
}

/// Whatever the job's mode, each of its exclude patterns reaches rsync as an
/// option `--exclude=` followed by the pattern; `--delete` is given to mirror
/// jobs; and the arguments are the archive flag, three fixed options,
/// `--delete` for a mirror, one option per pattern, the source and the
/// destination, so none is dropped or added.
pub proof fn every_exclude_reaches_rsync(flag: Seq<char>, job: JobView, root: Seq<char>)
    ensures
        forall|i: int|
            0 <= i < job.excludes.len() ==> rsync_arg_list(flag, job, root).contains(
                "--exclude="@ + #[trigger] job.excludes[i],
            ),
        job.mode == SyncMode::Backup ==> rsync_arg_list(flag, job, root).contains("--delete"@),
        rsync_arg_list(flag, job, root).len() == 6 + job.excludes.len() + (if job.mode
            == SyncMode::Backup {
            1int
        } else {
            0int
        }),
        job.mode != SyncMode::Backup && flag != "--delete"@ ==> !rsync_arg_list(
            flag,
            job,
            root,
        ).contains("--delete"@),
        rsync_arg_list(flag, job, root)[0] == flag,
        rsync_arg_list(flag, job, root)[rsync_arg_list(flag, job, root).len() - 2] == job.source
            + seq!['/'],
        rsync_arg_list(flag, job, root).last() == join(root, job.destination) + seq!['/'],
{
    let a = rsync_arg_list(flag, job, root);
    let d: int = if job.mode == SyncMode::Backup {
        1
    } else {
        0
    };
    assert forall|i: int| 0 <= i < job.excludes.len() implies a.contains(
        "--exclude="@ + #[trigger] job.excludes[i],
    ) by {
        assert(a[4 + d + i] == "--exclude="@ + job.excludes[i]);
    }
    if job.mode == SyncMode::Backup {
        assert(a[4] == "--delete"@);
    } else if flag != "--delete"@ {
        reveal_strlit("--delete");
        reveal_strlit("--exclude=");
        reveal_strlit("--info=progress2");
        reveal_strlit("--no-inc-recursive");
        reveal_strlit("--partial-dir=.rsync-partial");
        assert forall|k: int| 0 <= k < a.len() implies a[k] != "--delete"@ by {
            if 4 <= k < a.len() - 2 {
                assert(a[k] == "--exclude="@ + job.excludes[k - 4]);
                assert(a[k][2] == 'e');
            } else if k >= a.len() - 2 {
                assert(a[k].last() == '/');
            } else if k == 1 || k == 2 || k == 3 {
                assert(a[k].len() != 8 || a[k][2] != 'd');
            }
        }
    }
}

} // verus!
