//! Shell quoting and the display of the commands that are run.

use vstd::prelude::*;
use crate::order::strs;
use crate::text::{
    concat, index_of, lemma_index_of, lemma_replace_all_absent, occurs_at, push_replaced,
    replace_all, to_chars,
};

verus! {

/// A character that a POSIX shell takes literally outside quotes: an ASCII
/// letter or digit, or one of `-_=+.,/:@`.
pub open spec fn is_plain_char(c: char) -> bool {
    ||| ('a' <= c && c <= 'z')
    ||| ('A' <= c && c <= 'Z')
    ||| ('0' <= c && c <= '9')
    ||| c == '-' || c == '_' || c == '=' || c == '+' || c == '.' || c == ',' || c == '/'
        || c == ':' || c == '@'
}

/// Every character of `s` is plain.
pub open spec fn is_plain(s: Seq<char>) -> bool {
    forall|i: int| 0 <= i < s.len() ==> is_plain_char(#[trigger] s[i])
}

/// The text that stands for an embedded single quote inside single quotes.
pub open spec fn escaped_quote() -> Seq<char> {
    seq!['\'', '\\', '\'', '\'']
}

/// `value` as a shell word: unchanged where every character is plain,
/// otherwise inside single quotes, each single quote written `'\''`.
pub open spec fn spec_shell_quote(value: Seq<char>) -> Seq<char> {
    if is_plain(value) {
        value
    } else {
        seq!['\''] + replace_all(value, seq!['\''], escaped_quote()) + seq!['\'']
    }
}

fn is_plain_c(c: char) -> (b: bool)
    ensures
        b == is_plain_char(c),
{
    ('a' <= c && c <= 'z') || ('A' <= c && c <= 'Z') || ('0' <= c && c <= '9') || c == '-' || c
        == '_' || c == '=' || c == '+' || c == '.' || c == ',' || c == '/' || c == ':' || c
        == '@'
}

/// Quotes `value` for a POSIX shell.
pub fn shell_quote(value: &str) -> (r: String)
    ensures
        r@ == spec_shell_quote(value@),
{
    let cs = to_chars(value);
    let mut i: usize = 0;
    while i < cs.len()
        invariant
            cs@ == value@,
            i <= cs.len(),
            forall|k: int| 0 <= k < i ==> is_plain_char(#[trigger] cs@[k]),
        decreases cs.len() - i,
    {
        if !is_plain_c(cs[i]) {
            let pat = vec!['\''];
            let mut out = "'".to_owned();
            proof {
                reveal_strlit("'");
                reveal_strlit("'\\''");
                assert("'\\''"@ =~= escaped_quote());
                assert(pat@ =~= seq!['\'']);
            }
            push_replaced(&mut out, &cs, &pat, "'\\''");
            out.append("'");
            proof {
                reveal_strlit("'");
                assert(!is_plain(value@));
                assert(out@ =~= spec_shell_quote(value@));
            }
            return out;
        }
        i += 1;
    }
    value.to_owned()
}

/// The words joined by single spaces.
pub open spec fn join_words(ws: Seq<Seq<char>>) -> Seq<char>
    decreases ws.len(),
{
    if ws.len() == 0 {
        seq![]
    } else if ws.len() == 1 {
        ws[0]
    } else {
        join_words(ws.drop_last()) + seq![' '] + ws.last()
    }
}

/// Each word quoted for the shell.
pub open spec fn quote_all(ws: Seq<Seq<char>>) -> Seq<Seq<char>> {
    Seq::new(ws.len(), |i: int| spec_shell_quote(ws[i]))
}

/// How a command is shown before it runs: the program and each argument
/// quoted for the shell, separated by spaces.
pub open spec fn spec_command_display(program: Seq<char>, args: Seq<Seq<char>>) -> Seq<char> {
    join_words(quote_all(seq![program] + args))
}

/// Returns the command line that shows `program` run with `args`.
pub fn command_display(program: &str, args: &[String]) -> (r: String)
    ensures
        r@ == spec_command_display(program@, strs(args@)),
{
    let ghost ws = seq![program@] + strs(args@);
    let mut out = shell_quote(program);
    assert(quote_all(ws).take(1) =~= seq![spec_shell_quote(program@)]);
    let mut i: usize = 0;
    while i < args.len()
        invariant
            ws == seq![program@] + strs(args@),
            i <= args.len(),
            out@ == join_words(quote_all(ws).take(i + 1)),
        decreases args.len() - i,
    {
        let q = shell_quote(args[i].as_str());
        out.append(" ");
        out.append(q.as_str());
        proof {
            reveal_strlit(" ");
            let t = quote_all(ws).take(i + 2);
            assert(t.drop_last() =~= quote_all(ws).take(i + 1));
            assert(ws[i + 1] == args@[i as int]@);
            assert(t.last() == q@);
            assert(out@ =~= join_words(t));
        }
        i += 1;
    }
    assert(quote_all(ws).take(args.len() + 1) =~= quote_all(ws));
    out
}

/// How a command that was run ended.
#[derive(Debug, Clone, PartialEq, Eq)]
pub enum RunOutcome {
    /// The command exited; `status` is its exit status as text.
    Exited { success: bool, status: String },
    /// The command could not be started; the text says why.
    Failed(String),
}

/// The result of running `program`, shown as `display`.
///
/// # Errors
///
/// `Command failed with <status>: <display>` when the command exited with a
/// failure, and `Could not run <program>: <error>` when it could not start.
pub fn run_status(program: &str, display: &str, outcome: RunOutcome) -> (r: Result<(), String>)
    ensures
        match outcome {
            RunOutcome::Exited { success, status } => if success {
                r is Ok
            } else {
                r is Err && r->Err_0@ == "Command failed with "@ + status@ + ": "@ + display@
            },
            RunOutcome::Failed(e) => r is Err && r->Err_0@ == "Could not run "@ + program@
                + ": "@ + e@,
        },
{
    match outcome {
        RunOutcome::Exited { success, status } => {
            if success {
                Ok(())
            } else {
                let mut m = concat("Command failed with ", status.as_str());
                m.append(": ");
                m.append(display);
                Err(m)
            }
        },
        RunOutcome::Failed(e) => {
            let mut m = concat("Could not run ", program);
            m.append(": ");
            m.append(e.as_str());
            Err(m)
        },
    }
}

/// A character that a POSIX shell reads as itself outside quotes: a
/// printable ASCII character that is neither blank nor one of the
/// characters that quote, expand, glob, redirect or separate commands.
pub open spec fn is_shell_literal(c: char) -> bool {
    let n = c as u32;
    &&& 0x21 <= n <= 0x7E
    &&& c != '|' && c != '&' && c != ';' && c != '<' && c != '>' && c != '(' && c != ')'
    &&& c != '$' && c != '`' && c != '\\' && c != '"' && c != '\''
    &&& c != '*' && c != '?' && c != '[' && c != ']' && c != '#' && c != '~'
    &&& c != '{' && c != '}' && c != '!' && c != '^'
}

/// How a POSIX shell reads `w` as a single word: characters that stand for
/// themselves, `'...'` sections taken literally up to the next single
/// quote, and `\c` for the character `c`; `None` where `w` is not such a
/// word.
pub open spec fn shell_read(w: Seq<char>) -> Option<Seq<char>>
    decreases w.len(),
{
    if w.len() == 0 {
        Some(seq![])
    } else if w[0] == '\'' {
        let k = index_of(w.drop_first(), '\'');
        if k >= w.len() - 1 {
            None
        } else {
            match shell_read(w.skip(k as int + 2)) {
                Some(r) => Some(w.subrange(1, k as int + 1) + r),
                None => None,
            }
        }
    } else if w[0] == '\\' {
        if w.len() < 2 {
            None
        } else {
            match shell_read(w.skip(2)) {
                Some(r) => Some(seq![w[1]] + r),
                None => None,
            }
        }
    } else if is_shell_literal(w[0]) {
        match shell_read(w.drop_first()) {
            Some(r) => Some(seq![w[0]] + r),
            None => None,
        }
    } else {
        None
    }
}

/// Replacing a character that the first part lacks acts at its first
/// occurrence.
proof fn lemma_replace_char_split(a: Seq<char>, b: Seq<char>, c: char, rep: Seq<char>)
    requires
        forall|i: int| 0 <= i < a.len() ==> a[i] != c,
    ensures
        replace_all(a + seq![c] + b, seq![c], rep) == a + rep + replace_all(b, seq![c], rep),
    decreases a.len(),
{
    let w = a + seq![c] + b;
    if a.len() == 0 {
        assert(w =~= seq![c] + b);
        assert(w.take(1) =~= seq![c]);
        assert(w.skip(1) =~= b);
        assert(a + rep + replace_all(b, seq![c], rep) =~= rep + replace_all(b, seq![c], rep));
    } else {
        assert(w.take(1) =~= seq![a[0]]);
        assert(seq![a[0]] != seq![c]) by {
            assert(seq![a[0]][0] != seq![c][0]);
        }
        assert(w.drop_first() =~= a.drop_first() + seq![c] + b);
        lemma_replace_char_split(a.drop_first(), b, c, rep);
        assert(replace_all(w, seq![c], rep) =~= seq![a[0]] + replace_all(w.drop_first(), seq![c], rep));
        assert(a =~= seq![a[0]] + a.drop_first());
        assert(replace_all(w, seq![c], rep) =~= a + rep + replace_all(b, seq![c], rep));
    }
}

/// A text without a character is unchanged by replacing it.
proof fn lemma_replace_char_absent(a: Seq<char>, c: char, rep: Seq<char>)
    requires
        forall|i: int| 0 <= i < a.len() ==> a[i] != c,
    ensures
        replace_all(a, seq![c], rep) == a,
{
    assert forall|i: int| !occurs_at(a, seq![c], i) by {
        if occurs_at(a, seq![c], i) {
            assert(a.subrange(i, i + 1)[0] == a[i]);
        }
    }
    lemma_replace_all_absent(a, seq![c], rep);
}

/// The single-quoted form of `v` reads back as `v`.
proof fn lemma_quoted_reads_back(v: Seq<char>)
    ensures
        shell_read(seq!['\''] + replace_all(v, seq!['\''], escaped_quote()) + seq!['\''])
            == Some(v),
    decreases v.len(),
{
    let w = seq!['\''] + replace_all(v, seq!['\''], escaped_quote()) + seq!['\''];
    let k = index_of(v, '\'') as int;
    crate::text::lemma_index_of_bound(v, '\'');
    if k >= v.len() {
        lemma_replace_char_absent(v, '\'', escaped_quote());
        assert(w =~= seq!['\''] + v + seq!['\'']);
        let t = w.drop_first();
        assert(t =~= v + seq!['\'']);
        assert forall|i: int| 0 <= i < v.len() implies t[i] != '\'' by {
            assert(t[i] == v[i]);
        }
        lemma_index_of(t, '\'', v.len() as int);
        assert(w.subrange(1, v.len() as int + 1) =~= v);
        assert(w.skip(v.len() as int + 2) =~= Seq::<char>::empty());
        assert(shell_read(w.skip(v.len() as int + 2)) == Some(Seq::<char>::empty()));
        assert(v + Seq::<char>::empty() =~= v);
    } else {
        let a = v.take(k);
        let b = v.skip(k + 1);
        assert(v =~= a + seq!['\''] + b);
        lemma_replace_char_split(a, b, '\'', escaped_quote());
        let rb = replace_all(b, seq!['\''], escaped_quote());
        assert(w =~= seq!['\''] + a + seq!['\'', '\\', '\'', '\''] + rb + seq!['\'']);
        let t = w.drop_first();
        assert forall|i: int| 0 <= i < a.len() implies t[i] != '\'' by {
            assert(t[i] == a[i]);
        }
        assert(t[a.len() as int] == '\'');
        lemma_index_of(t, '\'', a.len() as int);
        assert(w.subrange(1, a.len() as int + 1) =~= a);
        let w1 = w.skip(a.len() as int + 2);
        assert(w1 =~= seq!['\\', '\''] + (seq!['\''] + rb + seq!['\'']));
        assert(w1.skip(2) =~= seq!['\''] + rb + seq!['\'']);
        lemma_quoted_reads_back(b);
        assert(shell_read(w1) == Some(seq!['\''] + b));
        assert(a + (seq!['\''] + b) =~= v);
    }
}

/// A word of plain characters reads back as itself.
proof fn lemma_plain_reads_back(v: Seq<char>)
    requires
        is_plain(v),
    ensures
        shell_read(v) == Some(v),
    decreases v.len(),
{
    if v.len() > 0 {
        assert(is_plain_char(v[0]));
        assert(is_plain(v.drop_first())) by {
            assert forall|i: int| 0 <= i < v.drop_first().len() implies is_plain_char(
                #[trigger] v.drop_first()[i],
            ) by {
                assert(v.drop_first()[i] == v[i + 1]);
            }
        }
        lemma_plain_reads_back(v.drop_first());
        assert(seq![v[0]] + v.drop_first() =~= v);
    }
}

/// A quoted word, read by a POSIX shell, gives back exactly the value that
/// was quoted, whatever characters it holds: quoting never changes what a
/// command receives and never splits a value into several words.
pub proof fn lemma_shell_quote_reads_back(v: Seq<char>)
    ensures
        shell_read(spec_shell_quote(v)) == Some(v),
{
    if is_plain(v) {
        lemma_plain_reads_back(v);
    } else {
        lemma_quoted_reads_back(v);
    }
}

/// A value of ASCII letters and digits is passed to the shell as it is.
pub proof fn lemma_alphanumeric_unquoted(v: Seq<char>)
    requires
        forall|i: int|
            0 <= i < v.len() ==> ('a' <= #[trigger] v[i] <= 'z' || 'A' <= v[i] <= 'Z' || '0'
                <= v[i] <= '9'),
    ensures
        spec_shell_quote(v) == v,
{
}

/// Words each preceded by a space.
pub open spec fn spaced(ws: Seq<Seq<char>>) -> Seq<char>
    decreases ws.len(),
{
    if ws.len() == 0 {
        seq![]
    } else {
        spaced(ws.drop_last()) + seq![' '] + ws.last()
    }
}

proof fn lemma_join_words_first(x: Seq<char>, ys: Seq<Seq<char>>)
    ensures
        join_words(seq![x] + ys) == x + spaced(ys),
    decreases ys.len(),
{
    if ys.len() == 0 {
        assert(seq![x] + ys =~= seq![x]);
        assert(x + spaced(ys) =~= x);
    } else {
        lemma_join_words_first(x, ys.drop_last());
        assert((seq![x] + ys).drop_last() =~= seq![x] + ys.drop_last());
        assert((seq![x] + ys).last() == ys.last());
        assert(join_words(seq![x] + ys) =~= x + spaced(ys));
    }
}

/// A command is shown as its quoted program followed, for each argument in
/// order, by a space and the quoted argument.
pub proof fn lemma_command_display_shape(program: Seq<char>, args: Seq<Seq<char>>)
    ensures
        spec_command_display(program, args) == spec_shell_quote(program) + spaced(
            Seq::new(args.len(), |i: int| spec_shell_quote(args[i])),
        ),
{
    let q = quote_all(seq![program] + args);
    assert(q =~= seq![spec_shell_quote(program)] + Seq::new(
        args.len(),
        |i: int| spec_shell_quote(args[i]),
    ));
    lemma_join_words_first(
        spec_shell_quote(program),
        Seq::new(args.len(), |i: int| spec_shell_quote(args[i])),
    );
}

} // verus!
