use vstd::prelude::*;
use vstd::string::*;

use crate::command::{Command, CommandList, CommandListType, SimpleCommand};

verus! {

/// A whitespace character in Unicode's sense (the `White_Space` property).
pub open spec fn is_ws(c: char) -> bool {
    ('\u{9}' <= c && c <= '\u{d}') || c == ' ' || c == '\u{85}' || c == '\u{a0}'
        || c == '\u{1680}' || ('\u{2000}' <= c && c <= '\u{200a}') || c == '\u{2028}'
        || c == '\u{2029}' || c == '\u{202f}' || c == '\u{205f}' || c == '\u{3000}'
}

/// The words of `s[start..]` that begin at or after `start`, where the scan
/// has reached `i` and the word in progress (if any) began at `start`.
pub open spec fn words_from(s: Seq<char>, start: int, i: int) -> Seq<Seq<char>>
    decreases s.len() - i,
{
    if i >= s.len() {
        if start < s.len() {
            seq![s.subrange(start, s.len() as int)]
        } else {
            seq![]
        }
    } else if is_ws(s[i]) {
        (if start < i {
            seq![s.subrange(start, i)]
        } else {
            seq![]
        }) + words_from(s, i + 1, i + 1)
    } else {
        words_from(s, start, i + 1)
    }
}

/// The maximal runs of non-whitespace characters of `s`, in order.
pub open spec fn words(s: Seq<char>) -> Seq<Seq<char>> {
    words_from(s, 0, 0)
}

pub open spec fn strs_view(v: Seq<&str>) -> Seq<Seq<char>> {
    v.map_values(|t: &str| t@)
}

pub open spec fn strings_view(v: Seq<String>) -> Seq<Seq<char>> {
    v.map_values(|t: String| t@)
}

fn is_ws_char(c: char) -> (r: bool)
    ensures
        r == is_ws(c),
{
    ('\u{9}' <= c && c <= '\u{d}') || c == ' ' || c == '\u{85}' || c == '\u{a0}'
        || c == '\u{1680}' || ('\u{2000}' <= c && c <= '\u{200a}') || c == '\u{2028}'
        || c == '\u{2029}' || c == '\u{202f}' || c == '\u{205f}' || c == '\u{3000}'
}

/// Splits `s` into its words: the maximal runs of non-whitespace characters.
pub fn split_whitespace<'a>(s: &'a str) -> (r: Vec<&'a str>)
    ensures
        strs_view(r@) == words(s@),
{
    let n = s.unicode_len();
    let mut out: Vec<&'a str> = Vec::new();
    let mut start: usize = 0;
    let mut i: usize = 0;
    while i < n
        invariant
            n == s@.len(),
            start <= i <= n,
            words(s@) == strs_view(out@) + words_from(s@, start as int, i as int),
        decreases n - i,
    {
        let c = s.get_char(i);
        if is_ws_char(c) {
            let ghost before = out@;
            if start < i {
                let w = s.substring_char(start, i);
                out.push(w);
                assert(strs_view(out@) =~= strs_view(before) + seq![s@.subrange(start as int, i as int)]);
            }
            assert(words_from(s@, start as int, i as int) == (if start < i {
                seq![s@.subrange(start as int, i as int)]
            } else {
                seq![]
            }) + words_from(s@, i + 1, i + 1));
            assert(words(s@) =~= strs_view(out@) + words_from(s@, i + 1, i + 1));
            start = i + 1;
        }
        i = i + 1;
    }
    if start < n {
        let ghost before = out@;
        let w = s.substring_char(start, n);
        out.push(w);
        assert(strs_view(out@) =~= strs_view(before) + seq![s@.subrange(start as int, n as int)]);
    }
    assert(words(s@) =~= strs_view(out@));
    out
}

/// The program and the argument vector of one invocation, out of its words:
/// the program is the first word, if there is one, and the argument vector
/// holds every word, the program's own name first.
pub fn extract_simple<'a>(arguments: &'a Vec<&str>) -> (r: (Option<&'a str>, Vec<String>))
    ensures
        r.0 is Some <==> arguments@.len() > 0,
        r.0 is Some ==> r.0->0@ == arguments@[0]@,
        strings_view(r.1@) == strs_view(arguments@),
{
    let cmd = if arguments.len() > 0 {
        Some(arguments[0])
    } else {
        None
    };
    let mut args: Vec<String> = Vec::new();
    let mut i: usize = 0;
    while i < arguments.len()
        invariant
            i <= arguments@.len(),
            strings_view(args@) =~= strs_view(arguments@.subrange(0, i as int)),
        decreases arguments@.len() - i,
    {
        let ghost before = args@;
        let a: &str = arguments[i];
        let owned = String::from_str(a);
        args.push(owned);
        assert(a == arguments@[i as int]);
        assert(strings_view(args@) =~= strings_view(before).push(a@));
        assert(strs_view(arguments@.subrange(0, i + 1)) =~= strs_view(
            arguments@.subrange(0, i as int),
        ).push(a@));
        i = i + 1;
    }
    assert(arguments@.subrange(0, i as int) =~= arguments@);
    (cmd, args)
}

/// The pieces of `s` between the occurrences of `sep`, found left to right
/// without overlap; the piece in progress began at `start` and the search has
/// reached `i`.
pub open spec fn split_from(s: Seq<char>, sep: Seq<char>, start: int, i: int) -> Seq<Seq<char>>
    decreases s.len() - i,
{
    if sep.len() == 0 || i < 0 || i + sep.len() > s.len() {
        seq![s.subrange(start, s.len() as int)]
    } else if s.subrange(i, i + sep.len()) == sep {
        seq![s.subrange(start, i)] + split_from(s, sep, i + sep.len(), i + sep.len())
    } else {
        split_from(s, sep, start, i + 1)
    }
}

/// Each character of `s` as a piece of its own.
pub open spec fn single_chars(s: Seq<char>) -> Seq<Seq<char>> {
    s.map_values(|c: char| seq![c])
}

/// The pieces of `s` between the occurrences of `sep`. An empty `sep` occurs
/// at every character boundary, so the pieces are an empty one, each
/// character, and an empty one.
pub open spec fn split_on(s: Seq<char>, sep: Seq<char>) -> Seq<Seq<char>> {
    if sep.len() == 0 {
        seq![Seq::<char>::empty()] + single_chars(s) + seq![Seq::<char>::empty()]
    } else {
        split_from(s, sep, 0, 0)
    }
}

/// The pieces of `s` cut at every character boundary.
fn split_at_every_char<'a>(s: &'a str) -> (r: Vec<&'a str>)
    ensures
        strs_view(r@) == split_on(s@, seq![]),
{
    let n = s.unicode_len();
    let mut out: Vec<&'a str> = Vec::new();
    let first = s.substring_char(0, 0);
    assert(first@ =~= Seq::<char>::empty());
    out.push(first);
    assert(strs_view(out@) =~= seq![Seq::<char>::empty()] + single_chars(s@.subrange(0, 0)));
    let mut i: usize = 0;
    while i < n
        invariant
            n == s@.len(),
            i <= n,
            strs_view(out@) == seq![Seq::<char>::empty()] + single_chars(s@.subrange(0, i as int)),
        decreases n - i,
    {
        let ghost before = out@;
        out.push(s.substring_char(i, i + 1));
        assert(s@.subrange(i as int, i + 1) =~= seq![s@[i as int]]);
        assert(single_chars(s@.subrange(0, i + 1)) =~= single_chars(s@.subrange(0, i as int)).push(
            seq![s@[i as int]],
        ));
        assert(strs_view(out@) =~= strs_view(before).push(seq![s@[i as int]]));
        i = i + 1;
    }
    let ghost before = out@;
    let last = s.substring_char(n, n);
    assert(last@ =~= Seq::<char>::empty());
    out.push(last);
    assert(s@.subrange(0, n as int) =~= s@);
    assert(strs_view(out@) =~= strs_view(before).push(Seq::<char>::empty()));
    assert(strs_view(out@) =~= split_on(s@, seq![]));
    out
}

/// Whether `sep` occurs in `s` at position `i`.
fn occurs_at(s: &str, n: usize, sep: &str, m: usize, i: usize) -> (r: bool)
    requires
        n == s@.len(),
        m == sep@.len(),
        i + m <= n,
    ensures
        r == (s@.subrange(i as int, i + m) == sep@),
{
    let mut k: usize = 0;
    while k < m
        invariant
            n == s@.len(),
            m == sep@.len(),
            i + m <= n,
            k <= m,
            s@.subrange(i as int, i + k) == sep@.subrange(0, k as int),
        decreases m - k,
    {
        if s.get_char(i + k) != sep.get_char(k) {
            assert(s@.subrange(i as int, i + m)[k as int] != sep@[k as int]);
            return false;
        }
        k = k + 1;
        assert(s@.subrange(i as int, i + k) =~= sep@.subrange(0, k as int));
    }
    assert(sep@.subrange(0, m as int) =~= sep@);
    true
}

/// Splits `s` at each occurrence of `sep`, left to right.
pub fn split_at_separator<'a>(s: &'a str, sep: &str) -> (r: Vec<&'a str>)
    ensures
        strs_view(r@) == split_on(s@, sep@),
{
    let n = s.unicode_len();
    let m = sep.unicode_len();
    if m == 0 {
        assert(sep@ =~= seq![]);
        return split_at_every_char(s);
    }
    let mut out: Vec<&'a str> = Vec::new();
    let mut start: usize = 0;
    let mut i: usize = 0;
    while m <= n - i
        invariant
            n == s@.len(),
            m == sep@.len(),
            m > 0,
            start <= i,
            i <= n,
            split_on(s@, sep@) == strs_view(out@) + split_from(s@, sep@, start as int, i as int),
        decreases n - i,
    {
        if occurs_at(s, n, sep, m, i) {
            let ghost before = out@;
            let w = s.substring_char(start, i);
            out.push(w);
            assert(strs_view(out@) =~= strs_view(before) + seq![s@.subrange(start as int, i as int)]);
            assert(split_on(s@, sep@) =~= strs_view(out@) + split_from(s@, sep@, (i + m) as int, (i + m) as int));
            i = i + m;
            start = i;
        } else {
            i = i + 1;
        }
    }
    let ghost before = out@;
    let w = s.substring_char(start, n);
    out.push(w);
    assert(strs_view(out@) =~= strs_view(before) + seq![s@.subrange(start as int, n as int)]);
    assert(split_on(s@, sep@) =~= strs_view(out@));
    out
}

/// A character that may stand in a word of a command: an ASCII letter or `-`.
pub open spec fn is_word_char(c: char) -> bool {
    ('a' <= c && c <= 'z') || ('A' <= c && c <= 'Z') || c == '-'
}

/// Words of word characters separated by whitespace, with nothing before
/// the first word or after the last.
pub open spec fn is_basic(s: Seq<char>) -> bool {
    &&& s.len() > 0
    &&& is_word_char(s[0])
    &&& is_word_char(s.last())
    &&& forall|k: int| 0 <= k < s.len() ==> is_word_char(#[trigger] s[k]) || is_ws(s[k])
}

/// `s` without its leading spaces.
pub open spec fn trim_start(s: Seq<char>) -> Seq<char>
    decreases s.len(),
{
    if s.len() > 0 && s[0] == ' ' {
        trim_start(s.drop_first())
    } else {
        s
    }
}

/// `s` without its trailing spaces.
pub open spec fn trim_end(s: Seq<char>) -> Seq<char>
    decreases s.len(),
{
    if s.len() > 0 && s.last() == ' ' {
        trim_end(s.drop_last())
    } else {
        s
    }
}

/// A basic command with any number of spaces around it.
pub open spec fn is_segment(s: Seq<char>) -> bool {
    is_basic(trim_end(trim_start(s)))
}

/// A basic command followed by any number of spaces.
pub open spec fn is_lead_segment(s: Seq<char>) -> bool {
    s.len() > 0 && s[0] != ' ' && is_segment(s)
}

/// Two or more basic commands joined by `sep`, with spaces allowed around
/// each `sep` and at the end.
pub open spec fn is_chain_line(s: Seq<char>, sep: Seq<char>) -> bool {
    let p = split_on(s, sep);
    &&& p.len() >= 2
    &&& is_lead_segment(p[0])
    &&& forall|k: int| 1 <= k < p.len() ==> is_segment(#[trigger] p[k])
}

/// A basic command, one or more spaces, `&`, and any number of spaces.
pub open spec fn is_background_line(s: Seq<char>) -> bool {
    let t = trim_end(s);
    &&& s.len() > 0
    &&& s[0] != ' '
    &&& t.len() >= 2
    &&& t.last() == '&'
    &&& t[t.len() - 2] == ' '
    &&& is_basic(trim_end(t.drop_last()))
}

/// The first position at or after `a` that is not a space, before `b`.
fn skip_spaces(s: &str, a: usize, b: usize) -> (r: usize)
    requires
        a <= b <= s@.len(),
    ensures
        a <= r <= b,
        s@.subrange(r as int, b as int) == trim_start(s@.subrange(a as int, b as int)),
{
    let mut i = a;
    while i < b && s.get_char(i) == ' '
        invariant
            a <= i <= b <= s@.len(),
            trim_start(s@.subrange(a as int, b as int)) == trim_start(s@.subrange(i as int, b as int)),
        decreases b - i,
    {
        assert(s@.subrange(i as int, b as int).drop_first() =~= s@.subrange(i + 1, b as int));
        i = i + 1;
    }
    i
}

/// The end of `s[a..b]` once its trailing spaces are left out.
fn drop_trailing_spaces(s: &str, a: usize, b: usize) -> (r: usize)
    requires
        a <= b <= s@.len(),
    ensures
        a <= r <= b,
        s@.subrange(a as int, r as int) == trim_end(s@.subrange(a as int, b as int)),
{
    let mut j = b;
    while j > a && s.get_char(j - 1) == ' '
        invariant
            a <= j <= b <= s@.len(),
            trim_end(s@.subrange(a as int, b as int)) == trim_end(s@.subrange(a as int, j as int)),
        decreases j - a,
    {
        assert(s@.subrange(a as int, j as int).drop_last() =~= s@.subrange(a as int, j - 1));
        j = j - 1;
    }
    j
}

/// Whether `s[a..b]` is a basic command.
fn basic_between(s: &str, a: usize, b: usize) -> (r: bool)
    requires
        a <= b <= s@.len(),
    ensures
        r == is_basic(s@.subrange(a as int, b as int)),
{
    let ghost t = s@.subrange(a as int, b as int);
    if a == b {
        return false;
    }
    let first = s.get_char(a);
    let last = s.get_char(b - 1);
    let first_ok = ('a' <= first && first <= 'z') || ('A' <= first && first <= 'Z') || first == '-';
    let last_ok = ('a' <= last && last <= 'z') || ('A' <= last && last <= 'Z') || last == '-';
    if !first_ok || !last_ok {
        return false;
    }
    let mut i = a;
    while i < b
        invariant
            a <= i <= b <= s@.len(),
            t == s@.subrange(a as int, b as int),
            forall|k: int| 0 <= k < i - a ==> is_word_char(#[trigger] t[k]) || is_ws(t[k]),
        decreases b - i,
    {
        let c = s.get_char(i);
        let word = ('a' <= c && c <= 'z') || ('A' <= c && c <= 'Z') || c == '-';
        if !word && !is_ws_char(c) {
            assert(t[i - a] == c);
            return false;
        }
        i = i + 1;
    }
    true
}

/// Whether `s[a..b]` is a basic command with spaces around it.
fn segment_between(s: &str, a: usize, b: usize) -> (r: bool)
    requires
        a <= b <= s@.len(),
    ensures
        r == is_segment(s@.subrange(a as int, b as int)),
{
    let a2 = skip_spaces(s, a, b);
    let b2 = drop_trailing_spaces(s, a2, b);
    basic_between(s, a2, b2)
}

/// Whether `s` is a chain of two or more basic commands joined by `sep`.
fn is_chain(s: &str, sep: &str) -> (r: bool)
    ensures
        r == is_chain_line(s@, sep@),
{
    let pieces = split_at_separator(s, sep);
    let ghost p = split_on(s@, sep@);
    assert(pieces@.len() == p.len());
    if pieces.len() < 2 {
        return false;
    }
    let first: &str = pieces[0];
    assert(first@ == p[0]);
    let n0 = first.unicode_len();
    if n0 == 0 || first.get_char(0) == ' ' {
        return false;
    }
    assert(first@.subrange(0, n0 as int) =~= first@);
    if !segment_between(first, 0, n0) {
        return false;
    }
    let mut k: usize = 1;
    while k < pieces.len()
        invariant
            1 <= k <= pieces@.len(),
            p == split_on(s@, sep@),
            pieces@.len() == p.len(),
            strs_view(pieces@) == p,
            forall|j: int| 1 <= j < k ==> is_segment(#[trigger] p[j]),
        decreases pieces@.len() - k,
    {
        let piece: &str = pieces[k];
        assert(piece@ == p[k as int]);
        let len = piece.unicode_len();
        assert(piece@.subrange(0, len as int) =~= piece@);
        if !segment_between(piece, 0, len) {
            assert(!is_segment(p[k as int]));
            return false;
        }
        k = k + 1;
    }
    true
}

/// Whether `s` is a basic command sent to the background with `&`.
fn is_background(s: &str) -> (r: bool)
    ensures
        r == is_background_line(s@),
{
    let n = s.unicode_len();
    if n == 0 || s.get_char(0) == ' ' {
        return false;
    }
    assert(s@.subrange(0, n as int) =~= s@);
    let e = drop_trailing_spaces(s, 0, n);
    let ghost t = trim_end(s@);
    assert(t == s@.subrange(0, e as int));
    if e < 2 {
        return false;
    }
    if s.get_char(e - 1) != '&' || s.get_char(e - 2) != ' ' {
        return false;
    }
    assert(t.drop_last() =~= s@.subrange(0, e - 1));
    let e2 = drop_trailing_spaces(s, 0, e - 1);
    basic_between(s, 0, e2)
}

/// `c` invokes the words `w`: its program is the first word and its argument
/// vector is all of them.
pub open spec fn invokes(c: SimpleCommand, w: Seq<Seq<char>>, background: bool) -> bool {
    &&& w.len() > 0
    &&& c.command@ == w[0]
    &&& c.args_view() == w
    &&& c.background == background
}

/// Each of `cs`, in order, invokes the matching word list of `ws` in the foreground.
pub open spec fn invokes_all(cs: Seq<SimpleCommand>, ws: Seq<Seq<Seq<char>>>) -> bool {
    &&& cs.len() == ws.len()
    &&& forall|k: int| 0 <= k < cs.len() ==> invokes(#[trigger] cs[k], ws[k], false)
}

/// The word lists of those of `pieces` that hold at least one word, in order.
pub open spec fn piece_words(pieces: Seq<Seq<char>>) -> Seq<Seq<Seq<char>>>
    decreases pieces.len(),
{
    if pieces.len() == 0 {
        seq![]
    } else {
        let rest = piece_words(pieces.drop_last());
        let w = words(pieces.last());
        if w.len() > 0 {
            rest.push(w)
        } else {
            rest
        }
    }
}

/// The invocations of the pieces of `command_string` between the occurrences
/// of `separator`; a piece without words gives none.
pub fn get_command_list(command_string: &str, separator: &str) -> (r: Vec<SimpleCommand>)
    ensures
        invokes_all(r@, piece_words(split_on(command_string@, separator@))),
{
    let vals = split_at_separator(command_string, separator);
    let ghost p = split_on(command_string@, separator@);
    let mut cmd_list: Vec<SimpleCommand> = Vec::new();
    let mut k: usize = 0;
    while k < vals.len()
        invariant
            k <= vals@.len(),
            p == split_on(command_string@, separator@),
            strs_view(vals@) == p,
            invokes_all(cmd_list@, piece_words(p.subrange(0, k as int))),
        decreases vals@.len() - k,
    {
        let val: &str = vals[k];
        assert(val@ == p[k as int]);
        let single_command = split_whitespace(val);
        let res = extract_simple(&single_command);
        let ghost before = cmd_list@;
        let ghost w = words(val@);
        assert(p.subrange(0, k + 1).drop_last() =~= p.subrange(0, k as int));
        assert(p.subrange(0, k + 1).last() == val@);
        if let Some(command) = res.0 {
            cmd_list.push(
                SimpleCommand { command: String::from_str(command), args: res.1, background: false },
            );
            assert(invokes(cmd_list@.last(), w, false));
            assert forall|j: int| 0 <= j < cmd_list@.len() implies invokes(
                #[trigger] cmd_list@[j],
                piece_words(p.subrange(0, k + 1))[j],
                false,
            ) by {
                if j < before.len() {
                    assert(cmd_list@[j] == before[j]);
                }
            }
        }
        k = k + 1;
    }
    assert(p.subrange(0, k as int) =~= p);
    cmd_list
}

/// The separator of a chain whose commands must all succeed.
pub open spec fn and_sep() -> Seq<char> {
    seq!['&', '&']
}

/// The separator of a pipeline.
pub open spec fn pipe_sep() -> Seq<char> {
    seq!['|']
}

/// The separator of a chain that stops at the first success.
pub open spec fn or_sep() -> Seq<char> {
    seq!['|', '|']
}

/// `c` is the single invocation of the words `w`, or nothing when there are none.
pub open spec fn is_invocation(c: Command, w: Seq<Seq<char>>, background: bool) -> bool {
    if w.len() > 0 {
        match c {
            Command::SimpleCommand(sc) => invokes(sc, w, background),
            _ => false,
        }
    } else {
        c is NoCommand
    }
}

/// `c` is the chain of kind `kind` of the pieces of `s` between the `sep`s.
pub open spec fn is_chain_of(c: Command, s: Seq<char>, sep: Seq<char>, kind: CommandListType) -> bool {
    match c {
        Command::CommandList(cl) => cl.kind == kind && invokes_all(
            cl.commands@,
            piece_words(split_on(s, sep)),
        ),
        _ => false,
    }
}

/// What the line `s` means. The forms are tried in order: a basic command
/// sent to the background, then chains joined by `&&`, by `|`, by `||`;
/// anything else is the invocation of all of its words.
pub open spec fn parses_to(s: Seq<char>, c: Command) -> bool {
    if is_background_line(s) {
        let w = words(s);
        is_invocation(c, if w.len() > 0 { w.drop_last() } else { w }, true)
    } else if is_chain_line(s, and_sep()) {
        is_chain_of(c, s, and_sep(), CommandListType::AND)
    } else if is_chain_line(s, pipe_sep()) {
        is_chain_of(c, s, pipe_sep(), CommandListType::PIPE)
    } else if is_chain_line(s, or_sep()) {
        is_chain_of(c, s, or_sep(), CommandListType::OR)
    } else {
        is_invocation(c, words(s), false)
    }
}

/// Relies on `String::pop`: it removes and returns the last character, and
/// returns `None` on an empty string.
#[verifier::external_body]
fn pop_last(s: &mut String) -> (r: Option<char>)
    ensures
        old(s)@.len() == 0 ==> r is None && final(s)@ == old(s)@,
        old(s)@.len() > 0 ==> r == Some(old(s)@.last()) && final(s)@ == old(s)@.drop_last(),
{
    s.pop()
}

fn invocation_of(w: &Vec<&str>, background: bool) -> (r: Command)
    ensures
        is_invocation(r, strs_view(w@), background),
{
    let res = extract_simple(w);
    match res.0 {
        Some(command) => Command::SimpleCommand(
            SimpleCommand { command: String::from_str(command), args: res.1, background },
        ),
        None => Command::NoCommand,
    }
}

/// Parses an input line: a trailing newline is removed first, and what is
/// left is read as `parses_to` says.
pub fn parse(cmd_argument: &mut String) -> (r: Command)
    ensures
        final(cmd_argument)@ == (if old(cmd_argument)@.len() > 0 && old(cmd_argument)@.last() == '\n' {
            old(cmd_argument)@.drop_last()
        } else {
            old(cmd_argument)@
        }),
        parses_to(final(cmd_argument)@, r),
{
    let len = cmd_argument.as_str().unicode_len();
    if len > 0 && cmd_argument.as_str().get_char(len - 1) == '\n' {
        pop_last(cmd_argument);
    }
    let line: &str = cmd_argument.as_str();
    let and_s: &str = "&&";
    let pipe_s: &str = "|";
    let or_s: &str = "||";
    proof {
        reveal_strlit("&&");
        reveal_strlit("|");
        reveal_strlit("||");
        assert(and_s@ =~= and_sep());
        assert(pipe_s@ =~= pipe_sep());
        assert(or_s@ =~= or_sep());
    }
    if is_background(line) {
        let mut cmd = split_whitespace(line);
        let ghost all = cmd@;
        if cmd.len() > 0 {
            cmd.pop();
            assert(strs_view(cmd@) =~= strs_view(all).drop_last());
        }
        invocation_of(&cmd, true)
    } else if is_chain(line, and_s) {
        let list = get_command_list(line, and_s);
        Command::CommandList(CommandList { commands: list, kind: CommandListType::AND })
    } else if is_chain(line, pipe_s) {
        let list = get_command_list(line, pipe_s);
        Command::CommandList(CommandList { commands: list, kind: CommandListType::PIPE })
    } else if is_chain(line, or_s) {
        let list = get_command_list(line, or_s);
        Command::CommandList(CommandList { commands: list, kind: CommandListType::OR })
    } else {
        let cmd = split_whitespace(line);
        invocation_of(&cmd, false)
    }
}

} // verus!
