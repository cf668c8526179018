//! The command line: profile lists and the choice of command.

use vstd::prelude::*;
use crate::order::strs;
use crate::text::{
    index_of, lemma_index_of, lemma_index_of_bound,
    bounds_within, concat, pieces, range_string, split, split_bounds, str_eq, to_chars,
    trim_bounds, trimmed_entries,
};

verus! {

/// The profile names that a list of arguments holds: each argument split at
/// commas, each piece trimmed, empty pieces left out, in order.
pub open spec fn profile_names(args: Seq<Seq<char>>) -> Seq<Seq<char>>
    decreases args.len(),
{
    if args.len() == 0 {
        seq![]
    } else {
        profile_names(args.drop_last()) + trimmed_entries(split(args.last(), ','))
    }
}

/// Appends the profile names of `arg` to `out`.
fn push_profile_names(out: &mut Vec<String>, arg: &str)
    ensures
        strs(final(out)@) == strs(old(out)@) + trimmed_entries(split(arg@, ',')),
{
    let cs = to_chars(arg);
    let bounds = split_bounds(&cs, 0, cs.len(), ',');
    assert(cs@.subrange(0, cs@.len() as int) =~= cs@);
    let ghost ps = split(cs@, ',');
    let ghost start = strs(out@);
    let mut j: usize = 0;
    assert(ps.take(0) =~= Seq::<Seq<char>>::empty());
    assert(strs(out@) =~= start + trimmed_entries(ps.take(0)));
    while j < bounds.len()
        invariant
            ps == split(cs@, ','),
            cs@ == arg@,
            bounds_within(bounds@, cs.len() as int),
            pieces(cs@, bounds@) == ps,
            j <= bounds.len(),
            strs(out@) == start + trimmed_entries(ps.take(j as int)),
        decreases bounds.len() - j,
    {
        let (a, b) = bounds[j];
        assert(ps.take(j + 1).drop_last() =~= ps.take(j as int));
        assert(ps.take(j + 1).last() == ps[j as int]);
        assert(ps[j as int] == cs@.subrange(a as int, b as int));
        let (x, y) = trim_bounds(&cs, a, b, false);
        let ghost before = strs(out@);
        if x < y {
            let name = range_string(&cs, x, y);
            out.push(name);
            assert(strs(out@) =~= before.push(name@));
        }
        assert(strs(out@) =~= start + trimmed_entries(ps.take(j + 1)));
        j += 1;
    }
    assert(ps.take(bounds.len() as int) =~= ps);
}

/// The profile names of `arguments[from..]`.
fn profiles_from(arguments: &[String], from: usize) -> (r: Vec<String>)
    requires
        from <= arguments.len(),
    ensures
        strs(r@) == profile_names(strs(arguments@).skip(from as int)),
{
    let ghost all = strs(arguments@).skip(from as int);
    let mut r: Vec<String> = Vec::new();
    let mut i = from;
    assert(all.take(0) =~= Seq::<Seq<char>>::empty());
    assert(strs(r@) =~= profile_names(all.take(0)));
    while i < arguments.len()
        invariant
            all == strs(arguments@).skip(from as int),
            from <= i <= arguments.len(),
            strs(r@) == profile_names(all.take(i - from)),
        decreases arguments.len() - i,
    {
        push_profile_names(&mut r, arguments[i].as_str());
        assert(all.take(i - from + 1).drop_last() =~= all.take(i - from));
        assert(all.take(i - from + 1).last() == arguments@[i as int]@);
        i += 1;
    }
    assert(all.take(arguments.len() - from) =~= all);
    r
}

/// Parses profile names given as comma-separated or separate arguments.
pub fn parse_profiles(arguments: &[String]) -> (r: Vec<String>)
    ensures
        strs(r@) == profile_names(strs(arguments@)),
{
    let r = profiles_from(arguments, 0);
    assert(strs(arguments@).skip(0) =~= strs(arguments@));
    r
}

/// What the command line asks for.
#[derive(Debug, Clone, PartialEq, Eq)]
pub enum Command {
    /// Print the usage.
    Help,
    /// Apply, or with `dry_run` print, the manifest at `manifest`.
    Apply { manifest: String, dry_run: bool },
    /// Apply the named profiles of the default manifest.
    Install { profiles: Vec<String> },
    /// Capture the system into a new manifest at `manifest`.
    Capture { manifest: String },
    /// A command line that asks for nothing valid; the text says why.
    Invalid(String),
}

/// The model of a [`Command`].
pub enum CommandModel {
    Help,
    Apply(Seq<char>, bool),
    Install(Seq<Seq<char>>),
    Capture(Seq<char>),
    Invalid(Seq<char>),
}

impl View for Command {
    type V = CommandModel;

    open spec fn view(&self) -> CommandModel {
        match self {
            Command::Help => CommandModel::Help,
            Command::Apply { manifest, dry_run } => CommandModel::Apply(manifest@, *dry_run),
            Command::Install { profiles } => CommandModel::Install(strs(profiles@)),
            Command::Capture { manifest } => CommandModel::Capture(manifest@),
            Command::Invalid(e) => CommandModel::Invalid(e@),
        }
    }
}

/// The command that the arguments (program name excluded) ask for.
pub open spec fn spec_command(args: Seq<Seq<char>>) -> CommandModel {
    if args.len() == 0 || args[0] == "help"@ || args[0] == "--help"@ || args[0] == "-h"@ {
        CommandModel::Help
    } else if args[0] == "apply"@ || args[0] == "dry-run"@ {
        if args.len() >= 2 {
            CommandModel::Apply(args[1], args[0] == "dry-run"@)
        } else {
            CommandModel::Invalid("Usage: linux_post_install "@ + args[0] + " <manifest>"@)
        }
    } else if args[0] == "install"@ {
        CommandModel::Install(profile_names(args.skip(1)))
    } else if args[0] == "capture"@ {
        if args.len() >= 2 {
            CommandModel::Capture(args[1])
        } else {
            CommandModel::Invalid("Usage: linux_post_install capture <manifest>"@)
        }
    } else {
        CommandModel::Invalid("Unknown command: "@ + args[0] + ". Run with --help."@)
    }
}

/// Reads the command line, without the program name.
pub fn parse_command(args: &[String]) -> (c: Command)
    ensures
        c@ == spec_command(strs(args@)),
{
    if args.len() == 0 {
        return Command::Help;
    }
    let cmd = args[0].as_str();
    if str_eq(cmd, "help") || str_eq(cmd, "--help") || str_eq(cmd, "-h") {
        return Command::Help;
    }
    if str_eq(cmd, "apply") || str_eq(cmd, "dry-run") {
        if args.len() >= 2 {
            return Command::Apply { manifest: args[1].clone(), dry_run: str_eq(cmd, "dry-run") };
        }
        let mut m = concat("Usage: linux_post_install ", cmd);
        m.append(" <manifest>");
        return Command::Invalid(m);
    }
    if str_eq(cmd, "install") {
        let profiles = profiles_from(args, 1);
        return Command::Install { profiles };
    }
    if str_eq(cmd, "capture") {
        if args.len() >= 2 {
            return Command::Capture { manifest: args[1].clone() };
        }
        return Command::Invalid("Usage: linux_post_install capture <manifest>".to_owned());
    }
    let mut m = concat("Unknown command: ", cmd);
    m.append(". Run with --help.");
    Command::Invalid(m)
}

/// Splitting at a separator that joins two texts splits each of them.
pub proof fn lemma_split_joined(a: Seq<char>, b: Seq<char>, c: char)
    ensures
        split(a + seq![c] + b, c) == split(a, c) + split(b, c),
    decreases a.len(),
{
    let s = a + seq![c] + b;
    lemma_index_of_bound(a, c);
    let k = index_of(a, c) as int;
    if k < a.len() {
        assert forall|i: int| 0 <= i < k implies s[i] != c by {
            assert(s[i] == a[i]);
        }
        lemma_index_of(s, c, k);
        assert(s.take(k) =~= a.take(k));
        assert(s.skip(k + 1) =~= a.skip(k + 1) + seq![c] + b);
        lemma_split_joined(a.skip(k + 1), b, c);
        assert(split(a, c) == seq![a.take(k)] + split(a.skip(k + 1), c));
        assert(split(s, c) =~= split(a, c) + split(b, c));
    } else {
        assert forall|i: int| 0 <= i < a.len() implies s[i] != c by {
            assert(s[i] == a[i]);
        }
        lemma_index_of(s, c, a.len() as int);
        assert(s.take(a.len() as int) =~= a);
        assert(s.skip(a.len() as int + 1) =~= b);
        assert(split(a, c) == seq![a]);
        assert(split(s, c) =~= split(a, c) + split(b, c));
    }
}

/// Trimming and dropping empty pieces works piece by piece.
pub proof fn lemma_trimmed_entries_concat(x: Seq<Seq<char>>, y: Seq<Seq<char>>)
    ensures
        trimmed_entries(x + y) == trimmed_entries(x) + trimmed_entries(y),
    decreases y.len(),
{
    if y.len() == 0 {
        assert(x + y =~= x);
        assert(trimmed_entries(x) + trimmed_entries(y) =~= trimmed_entries(x));
    } else {
        lemma_trimmed_entries_concat(x, y.drop_last());
        assert((x + y).drop_last() =~= x + y.drop_last());
        assert((x + y).last() == y.last());
        assert(trimmed_entries(x + y) =~= trimmed_entries(x) + trimmed_entries(y));
    }
}

/// Profiles given as one comma-separated argument are the profiles given
/// as separate arguments: `a,b` names what `a` and `b` name.
pub proof fn lemma_commas_separate_profiles(a: Seq<char>, b: Seq<char>)
    ensures
        profile_names(seq![a + seq![','] + b]) == profile_names(seq![a, b]),
{
    lemma_split_joined(a, b, ',');
    lemma_trimmed_entries_concat(split(a, ','), split(b, ','));
    let one = seq![a + seq![','] + b];
    let two = seq![a, b];
    assert(one.drop_last() =~= Seq::<Seq<char>>::empty());
    assert(two.drop_last() =~= seq![a]);
    assert(seq![a].drop_last() =~= Seq::<Seq<char>>::empty());
    assert(seq![a].last() == a);
    assert(profile_names(seq![a].drop_last()) =~= Seq::<Seq<char>>::empty());
    assert(profile_names(seq![a]) =~= trimmed_entries(split(a, ',')));
    assert(one.last() == a + seq![','] + b);
    assert(two.last() == b);
    assert(profile_names(one) =~= profile_names(two));
}

/// The characters of each command word.
proof fn lemma_command_words()
    ensures
        "help"@ == seq!['h', 'e', 'l', 'p'],
        "--help"@ == seq!['-', '-', 'h', 'e', 'l', 'p'],
        "-h"@ == seq!['-', 'h'],
        "apply"@ == seq!['a', 'p', 'p', 'l', 'y'],
        "dry-run"@ == seq!['d', 'r', 'y', '-', 'r', 'u', 'n'],
        "install"@ == seq!['i', 'n', 's', 't', 'a', 'l', 'l'],
        "capture"@ == seq!['c', 'a', 'p', 't', 'u', 'r', 'e'],
{
    reveal_strlit("help");
    assert("help"@ =~= seq!['h', 'e', 'l', 'p']);
    reveal_strlit("--help");
    assert("--help"@ =~= seq!['-', '-', 'h', 'e', 'l', 'p']);
    reveal_strlit("-h");
    assert("-h"@ =~= seq!['-', 'h']);
    reveal_strlit("apply");
    assert("apply"@ =~= seq!['a', 'p', 'p', 'l', 'y']);
    reveal_strlit("dry-run");
    assert("dry-run"@ =~= seq!['d', 'r', 'y', '-', 'r', 'u', 'n']);
    reveal_strlit("install");
    assert("install"@ =~= seq!['i', 'n', 's', 't', 'a', 'l', 'l']);
    reveal_strlit("capture");
    assert("capture"@ =~= seq!['c', 'a', 'p', 't', 'u', 'r', 'e']);
}

/// `install` always installs: followed by profile names or not, it asks to
/// install the names that the remaining arguments hold, none when there are
/// none (and then the manifest's selected profiles apply).
pub proof fn lemma_install_command(args: Seq<Seq<char>>)
    requires
        args.len() >= 1,
        args[0] == seq!['i', 'n', 's', 't', 'a', 'l', 'l'],
    ensures
        spec_command(args) == CommandModel::Install(profile_names(args.skip(1))),
        args.len() == 1 ==> spec_command(args) == CommandModel::Install(seq![]),
{
    lemma_command_words();
    if args.len() == 1 {
        assert(args.skip(1) =~= Seq::<Seq<char>>::empty());
    }
}

/// What each command word asks for.
pub proof fn lemma_command_table(args: Seq<Seq<char>>)
    ensures
        args.len() == 0 ==> spec_command(args) == CommandModel::Help,
        args.len() >= 1 && (args[0] == seq!['h', 'e', 'l', 'p'] || args[0] == seq!['-', '-', 'h', 'e', 'l', 'p'] || args[0]
            == seq!['-', 'h']) ==> spec_command(args) == CommandModel::Help,
        args.len() >= 2 && args[0] == seq!['a', 'p', 'p', 'l', 'y'] ==> spec_command(args) == CommandModel::Apply(
            args[1],
            false,
        ),
        args.len() >= 2 && args[0] == seq!['d', 'r', 'y', '-', 'r', 'u', 'n'] ==> spec_command(args)
            == CommandModel::Apply(args[1], true),
        args.len() >= 2 && args[0] == seq!['c', 'a', 'p', 't', 'u', 'r', 'e'] ==> spec_command(args)
            == CommandModel::Capture(args[1]),
        args.len() == 1 && args[0] == seq!['a', 'p', 'p', 'l', 'y'] ==> spec_command(args) == CommandModel::Invalid(
            "Usage: linux_post_install "@ + seq!['a', 'p', 'p', 'l', 'y'] + " <manifest>"@,
        ),
        args.len() == 1 && args[0] == seq!['c', 'a', 'p', 't', 'u', 'r', 'e'] ==> spec_command(args)
            == CommandModel::Invalid("Usage: linux_post_install capture <manifest>"@),
        args.len() >= 1 && args[0] != seq!['h', 'e', 'l', 'p'] && args[0] != seq!['-', '-', 'h', 'e', 'l', 'p'] && args[0]
            != seq!['-', 'h'] && args[0] != seq!['a', 'p', 'p', 'l', 'y'] && args[0] != seq!['d', 'r', 'y', '-', 'r', 'u', 'n']
            && args[0] != seq!['i', 'n', 's', 't', 'a', 'l', 'l'] && args[0] != seq!['c', 'a', 'p', 't', 'u', 'r', 'e'] ==> spec_command(args)
            == CommandModel::Invalid("Unknown command: "@ + args[0] + ". Run with --help."@),
{
    lemma_command_words();
}

/// The profile names of a list of arguments are those of each argument, in
/// order.
pub proof fn lemma_profile_names_concat(a: Seq<Seq<char>>, b: Seq<Seq<char>>)
    ensures
        profile_names(a + b) == profile_names(a) + profile_names(b),
    decreases b.len(),
{
    if b.len() == 0 {
        assert(a + b =~= a);
        assert(profile_names(a) + profile_names(b) =~= profile_names(a));
    } else {
        lemma_profile_names_concat(a, b.drop_last());
        assert((a + b).drop_last() =~= a + b.drop_last());
        assert((a + b).last() == b.last());
        assert(profile_names(a + b) =~= profile_names(a) + profile_names(b));
    }
}

/// An argument without commas names one profile, itself trimmed, unless it
/// is blank.
pub proof fn lemma_single_profile_name(x: Seq<char>)
    requires
        forall|i: int| 0 <= i < x.len() ==> x[i] != ',',
    ensures
        profile_names(seq![x]) == if crate::text::trim(x).len() > 0 {
            seq![crate::text::trim(x)]
        } else {
            seq![]
        },
{
    lemma_index_of(x, ',', x.len() as int);
    assert(split(x, ',') == seq![x]);
    assert(seq![x].drop_last() =~= Seq::<Seq<char>>::empty());
    assert(seq![x].last() == x);
    assert(seq![x].drop_last() =~= Seq::<Seq<char>>::empty());
    assert(seq![x].drop_last().len() == 0);
    let one = seq![x];
    assert(one.drop_last() =~= Seq::<Seq<char>>::empty());
    assert(trimmed_entries(seq![x]) =~= trimmed_entries(seq![x].drop_last()) + (if crate::text::trim(x).len() > 0 {
        seq![crate::text::trim(x)]
    } else {
        seq![]
    }));
    assert(profile_names(one.drop_last()) =~= Seq::<Seq<char>>::empty());
    assert(split(one.last(), ',') == seq![x]);
    assert(profile_names(one) == profile_names(one.drop_last()) + trimmed_entries(seq![x]));
    assert(profile_names(one) =~= (if crate::text::trim(x).len() > 0 {
        seq![crate::text::trim(x)]
    } else {
        seq![]
    }));
}

} // verus!
