//! Splitting a test-case command line into arguments.
//!
//! A double quote toggles quoting and is dropped; a space outside quotes
//! separates arguments; every other character (a space inside quotes too)
//! belongs to the current argument. Empty arguments are never produced.

use vstd::prelude::*;

verus! {

/// Trusted: std's `String::push` appends `ch` at the end of the string and
/// changes nothing else of it.
pub assume_specification[ String::push ](s: &mut String, ch: char)
    ensures
        final(s)@ == old(s)@.push(ch),
;

/// The state of the scanner after a prefix of the command line.
pub struct ScanState {
    pub args: Seq<Seq<char>>,
    pub current: Seq<char>,
    pub in_quotes: bool,
}

pub open spec fn scan_start() -> ScanState {
    ScanState { args: Seq::empty(), current: Seq::empty(), in_quotes: false }
}

/// One character of the command line applied to the scanner state.
pub open spec fn scan_char(st: ScanState, c: char) -> ScanState {
    if c == '"' {
        ScanState { in_quotes: !st.in_quotes, ..st }
    } else if c == ' ' && !st.in_quotes {
        if st.current.len() > 0 {
            ScanState { args: st.args.push(st.current), current: Seq::empty(), ..st }
        } else {
            st
        }
    } else {
        ScanState { current: st.current.push(c), ..st }
    }
}

/// The scanner state after the whole of `s`.
pub open spec fn scan(s: Seq<char>) -> ScanState
    decreases s.len(),
{
    if s.len() == 0 {
        scan_start()
    } else {
        scan_char(scan(s.drop_last()), s.last())
    }
}

/// The arguments of a command line: those completed by the scan, and the
/// pending one if it is not empty.
pub open spec fn spec_parse_cmd(s: Seq<char>) -> Seq<Seq<char>> {
    let st = scan(s);
    if st.current.len() > 0 {
        st.args.push(st.current)
    } else {
        st.args
    }
}

/// Splits `cmd` into its arguments.
pub fn parse_cmd(cmd: &str) -> (args: Vec<String>)
    ensures
        args.deep_view() == spec_parse_cmd(cmd@),
{
    let mut args: Vec<String> = Vec::new();
    let mut current_arg = String::new();
    let mut in_quotes = false;
    let ghost s = cmd@;

    for c in iter: cmd.chars()
        invariant
            iter.seq() == s,
            ({
                let st = scan(s.take(iter.index()));
                &&& args.deep_view() == st.args
                &&& current_arg@ == st.current
                &&& in_quotes == st.in_quotes
            }),
    {
        assert(s.take(iter.index() + 1).drop_last() =~= s.take(iter.index()));
        if c == '"' {
            in_quotes = !in_quotes;
        } else if c == ' ' && !in_quotes {
            if !current_arg.as_str().is_empty() {
                args.push(current_arg.clone());
                current_arg = String::new();
            }
        } else {
            current_arg.push(c);
        }
    }
    assert(s.take(s.len() as int) =~= s);
    if !current_arg.as_str().is_empty() {
        args.push(current_arg);
    }
    args
}

/// The characters of all arguments, in order.
pub open spec fn flatten(args: Seq<Seq<char>>) -> Seq<char>
    decreases args.len(),
{
    if args.len() == 0 {
        Seq::empty()
    } else {
        flatten(args.drop_last()) + args.last()
    }
}

/// Whether a quoted section is open after `s` (an odd number of quotes).
pub open spec fn quotes_open(s: Seq<char>) -> bool
    decreases s.len(),
{
    if s.len() == 0 {
        false
    } else if s.last() == '"' {
        !quotes_open(s.drop_last())
    } else {
        quotes_open(s.drop_last())
    }
}

/// The characters of `s` that end up in some argument: all but the quotes
/// and the spaces that stand outside quotes.
pub open spec fn kept_chars(s: Seq<char>) -> Seq<char>
    decreases s.len(),
{
    if s.len() == 0 {
        Seq::empty()
    } else {
        let c = s.last();
        if c == '"' || (c == ' ' && !quotes_open(s.drop_last())) {
            kept_chars(s.drop_last())
        } else {
            kept_chars(s.drop_last()).push(c)
        }
    }
}

/// No argument is empty and none holds a double quote.
pub open spec fn well_formed_args(args: Seq<Seq<char>>) -> bool {
    forall|i: int|
        0 <= i < args.len() ==> {
            &&& #[trigger] args[i].len() > 0
            &&& !args[i].contains('"')
        }
}

proof fn lemma_flatten_push(args: Seq<Seq<char>>, a: Seq<char>)
    ensures
        flatten(args.push(a)) == flatten(args) + a,
{
    assert(args.push(a).drop_last() =~= args);
}

proof fn lemma_scan_invariant(s: Seq<char>)
    ensures
        scan(s).in_quotes == quotes_open(s),
        flatten(scan(s).args) + scan(s).current == kept_chars(s),
        well_formed_args(scan(s).args),
        !scan(s).current.contains('"'),
    decreases s.len(),
{
    if s.len() > 0 {
        let p = s.drop_last();
        let c = s.last();
        lemma_scan_invariant(p);
        let st = scan(p);
        if c == '"' {
        } else if c == ' ' && !st.in_quotes {
            if st.current.len() > 0 {
                lemma_flatten_push(st.args, st.current);
                assert(flatten(st.args.push(st.current)) + Seq::<char>::empty() =~= flatten(
                    st.args,
                ) + st.current);
                assert forall|i: int| 0 <= i < st.args.push(st.current).len() implies {
                    &&& #[trigger] st.args.push(st.current)[i].len() > 0
                    &&& !st.args.push(st.current)[i].contains('"')
                } by {
                    if i < st.args.len() {
                        assert(st.args.push(st.current)[i] == st.args[i]);
                    }
                }
            }
        } else {
            assert(flatten(st.args) + st.current.push(c) =~= (flatten(st.args)
                + st.current).push(c));
            assert(!st.current.push(c).contains('"')) by {
                if st.current.push(c).contains('"') {
                    let k = choose|k: int|
                        0 <= k < st.current.push(c).len() && st.current.push(c)[k] == '"';
                    if k < st.current.len() {
                        assert(st.current[k] == '"');
                    }
                }
            }
        }
    }
}

/// Every argument that `parse_cmd` returns is non-empty and free of double
/// quotes.
pub proof fn law_args_well_formed(s: Seq<char>)
    ensures
        well_formed_args(spec_parse_cmd(s)),
{
    lemma_scan_invariant(s);
    let st = scan(s);
    if st.current.len() > 0 {
        assert forall|i: int| 0 <= i < st.args.push(st.current).len() implies {
            &&& #[trigger] st.args.push(st.current)[i].len() > 0
            &&& !st.args.push(st.current)[i].contains('"')
        } by {
            if i < st.args.len() {
                assert(st.args.push(st.current)[i] == st.args[i]);
            }
        }
    }
}

/// Parsing loses and reorders nothing: the arguments, joined, are the
/// command line without its quotes and without its unquoted spaces.
pub proof fn law_args_cover_kept_chars(s: Seq<char>)
    ensures
        flatten(spec_parse_cmd(s)) == kept_chars(s),
{
    lemma_scan_invariant(s);
    let st = scan(s);
    if st.current.len() > 0 {
        lemma_flatten_push(st.args, st.current);
    } else {
        assert(st.current =~= Seq::<char>::empty());
        assert(flatten(st.args) + st.current =~= flatten(st.args));
    }
}

/// `s` split at each space that stands outside quotes (after an even
/// number of quotes): the pieces before the last such space, and the last
/// piece. The pieces keep their quotes.
pub open spec fn split_unquoted(s: Seq<char>) -> (Seq<Seq<char>>, Seq<char>)
    decreases s.len(),
{
    if s.len() == 0 {
        (Seq::empty(), Seq::empty())
    } else {
        let (pieces, last) = split_unquoted(s.drop_last());
        if s.last() == ' ' && !quotes_open(s.drop_last()) {
            (pieces.push(last), Seq::empty())
        } else {
            (pieces, last.push(s.last()))
        }
    }
}

/// All pieces of `s` between spaces outside quotes.
pub open spec fn unquoted_pieces(s: Seq<char>) -> Seq<Seq<char>> {
    split_unquoted(s).0.push(split_unquoted(s).1)
}

/// `p` without its double quotes.
pub open spec fn strip_quotes(p: Seq<char>) -> Seq<char>
    decreases p.len(),
{
    if p.len() == 0 {
        Seq::empty()
    } else if p.last() == '"' {
        strip_quotes(p.drop_last())
    } else {
        strip_quotes(p.drop_last()).push(p.last())
    }
}

/// The pieces without their quotes, those that are then empty dropped.
pub open spec fn strip_and_keep(ps: Seq<Seq<char>>) -> Seq<Seq<char>>
    decreases ps.len(),
{
    if ps.len() == 0 {
        Seq::empty()
    } else {
        let q = strip_quotes(ps.last());
        if q.len() > 0 {
            strip_and_keep(ps.drop_last()).push(q)
        } else {
            strip_and_keep(ps.drop_last())
        }
    }
}

proof fn lemma_scan_is_split(s: Seq<char>)
    ensures
        scan(s).in_quotes == quotes_open(s),
        scan(s).current == strip_quotes(split_unquoted(s).1),
        scan(s).args == strip_and_keep(split_unquoted(s).0),
    decreases s.len(),
{
    if s.len() > 0 {
        let p = s.drop_last();
        let c = s.last();
        lemma_scan_is_split(p);
        let (pieces, last) = split_unquoted(p);
        if c == ' ' && !quotes_open(p) {
            assert(pieces.push(last).drop_last() =~= pieces);
        } else {
            assert(last.push(c).drop_last() =~= last);
        }
    }
}

/// `parse_cmd` described directly: split the command line at the spaces
/// that stand outside quotes, delete the quotes from each piece, and drop
/// the pieces that are then empty.
pub proof fn law_parse_is_split_outside_quotes(s: Seq<char>)
    ensures
        spec_parse_cmd(s) == strip_and_keep(unquoted_pieces(s)),
{
    lemma_scan_is_split(s);
    let (pieces, last) = split_unquoted(s);
    assert(pieces.push(last).drop_last() =~= pieces);
}

/// Arguments written back as a command line, separated by single spaces.
pub open spec fn join_args(args: Seq<Seq<char>>) -> Seq<char>
    decreases args.len(),
{
    if args.len() == 0 {
        Seq::empty()
    } else if args.len() == 1 {
        args[0]
    } else {
        join_args(args.drop_last()).push(' ') + args.last()
    }
}

/// A plain word: not empty, and without spaces and double quotes.
pub open spec fn plain_word(w: Seq<char>) -> bool {
    w.len() > 0 && !w.contains(' ') && !w.contains('"')
}

proof fn lemma_scan_plain_suffix(s: Seq<char>, w: Seq<char>)
    requires
        !w.contains(' '),
        !w.contains('"'),
    ensures
        scan(s + w) == (ScanState { current: scan(s).current + w, ..scan(s) }),
    decreases w.len(),
{
    if w.len() == 0 {
        assert(s + w =~= s);
        assert(scan(s).current + w =~= scan(s).current);
    } else {
        let w0 = w.drop_last();
        assert(!w0.contains(' ')) by {
            if w0.contains(' ') {
                let k = choose|k: int| 0 <= k < w0.len() && w0[k] == ' ';
                assert(w[k] == ' ');
            }
        }
        assert(!w0.contains('"')) by {
            if w0.contains('"') {
                let k = choose|k: int| 0 <= k < w0.len() && w0[k] == '"';
                assert(w[k] == '"');
            }
        }
        lemma_scan_plain_suffix(s, w0);
        assert((s + w).drop_last() =~= s + w0);
        assert((s + w).last() == w.last());
        assert(w.last() != ' ' && w.last() != '"') by {
            assert(w[w.len() - 1] == w.last());
        }
        assert(scan(s).current + w =~= (scan(s).current + w0).push(w.last()));
    }
}

proof fn lemma_scan_join(args: Seq<Seq<char>>)
    requires
        args.len() > 0,
        forall|i: int| 0 <= i < args.len() ==> plain_word(#[trigger] args[i]),
    ensures
        scan(join_args(args)) == (ScanState {
            args: args.drop_last(),
            current: args.last(),
            in_quotes: false,
        }),
    decreases args.len(),
{
    if args.len() == 1 {
        assert(plain_word(args[0]));
        lemma_scan_plain_suffix(Seq::empty(), args[0]);
        assert(Seq::<char>::empty() + args[0] =~= args[0]);
        assert(args.drop_last() =~= Seq::<Seq<char>>::empty());
    } else {
        let prev = args.drop_last();
        assert forall|i: int| 0 <= i < prev.len() implies plain_word(#[trigger] prev[i]) by {
            assert(prev[i] == args[i]);
        }
        lemma_scan_join(prev);
        let j = join_args(prev);
        assert(plain_word(prev.last())) by {
            assert(prev.last() == args[prev.len() - 1]);
        }
        assert(j.push(' ').drop_last() =~= j);
        let mid = scan(j.push(' '));
        assert(mid == (ScanState {
            args: prev.drop_last().push(prev.last()),
            current: Seq::empty(),
            in_quotes: false,
        }));
        assert(prev.drop_last().push(prev.last()) =~= prev);
        assert(plain_word(args.last())) by {
            assert(args.last() == args[args.len() - 1]);
        }
        lemma_scan_plain_suffix(j.push(' '), args.last());
    }
}

/// Plain words joined with spaces parse back to the same words.
pub proof fn law_parse_joined_plain_words(args: Seq<Seq<char>>)
    requires
        forall|i: int| 0 <= i < args.len() ==> plain_word(#[trigger] args[i]),
    ensures
        spec_parse_cmd(join_args(args)) == args,
{
    if args.len() == 0 {
        assert(spec_parse_cmd(join_args(args)) =~= args);
    } else {
        lemma_scan_join(args);
        assert(plain_word(args.last())) by {
            assert(args.last() == args[args.len() - 1]);
        }
        assert(args.drop_last().push(args.last()) =~= args);
    }
}

} // verus!
