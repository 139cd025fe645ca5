use vstd::prelude::*;
use vstd::string::*;

use crate::mode::{mode_of, Modes};

verus! {

/// A parsed invocation: the target path and the two flags.
pub struct Config {
    pub directory: String,
    pub recursively: bool,
    pub force: bool,
}

/// The mathematical value of a `Config`.
pub struct ConfigView {
    pub directory: Seq<char>,
    pub recursively: bool,
    pub force: bool,
}

impl View for Config {
    type V = ConfigView;

    open spec fn view(&self) -> ConfigView {
        ConfigView { directory: self.directory@, recursively: self.recursively, force: self.force }
    }
}

/// The error for an empty argument list.
pub open spec fn invalid_arguments_msg() -> Seq<char> {
    "Invalid args length"@
}

/// The error for arguments that hold no path.
pub open spec fn missing_directory_msg() -> Seq<char> {
    "Directory missing"@
}

/// The characters of each argument.
pub open spec fn arg_views(args: Seq<String>) -> Seq<Seq<char>> {
    args.map_values(|a: String| a@)
}

/// The arguments joined with single spaces.
pub open spec fn joined(args: Seq<Seq<char>>) -> Seq<char>
    decreases args.len(),
{
    if args.len() == 0 {
        Seq::empty()
    } else if args.len() == 1 {
        args[0]
    } else {
        joined(args.drop_last()) + seq![' '] + args.last()
    }
}

/// Position `i` holds the first character of a token: a maximal run of
/// characters other than a space.
pub open spec fn token_start(s: Seq<char>, i: int) -> bool {
    0 <= i < s.len() && s[i] != ' ' && (i == 0 || s[i - 1] == ' ')
}

/// Position `j` lies in a token whose first character is `-`.
pub open spec fn in_dash_token(s: Seq<char>, j: int) -> bool
    decreases j,
{
    if j < 0 || j >= s.len() || s[j] == ' ' {
        false
    } else if token_start(s, j) {
        s[j] == '-'
    } else {
        in_dash_token(s, j - 1)
    }
}

/// Position `j` holds the flag character `c`: it follows the `-` of a token
/// that begins with `-`.
pub open spec fn flag_at(s: Seq<char>, j: int, c: char) -> bool {
    0 <= j < s.len() && s[j] == c && !token_start(s, j) && in_dash_token(s, j)
}

/// The flag `c` is given somewhere in `s`.
pub open spec fn has_flag(s: Seq<char>, c: char) -> bool {
    exists|j: int| flag_at(s, j, c)
}

/// Position `i` starts a token that does not begin with `-`: a path.
pub open spec fn path_start(s: Seq<char>, i: int) -> bool {
    token_start(s, i) && s[i] != '-'
}

/// The first position at or after `i` where a path token starts, or the
/// length of `s` when there is none.
pub open spec fn first_path_from(s: Seq<char>, i: int) -> int
    decreases s.len() - i,
{
    if i < 0 || i >= s.len() {
        s.len() as int
    } else if path_start(s, i) {
        i
    } else {
        first_path_from(s, i + 1)
    }
}

/// The position just after the run of non-space characters that begins at `i`.
pub open spec fn token_end(s: Seq<char>, i: int) -> int
    decreases s.len() - i,
{
    if i < 0 || i >= s.len() || s[i] == ' ' {
        i
    } else {
        token_end(s, i + 1)
    }
}

/// The first path token of `s`, empty when there is none.
pub open spec fn path_of(s: Seq<char>) -> Seq<char> {
    let p = first_path_from(s, 0);
    s.subrange(p, token_end(s, p))
}

/// What parsing the arguments gives: the first path token with the flags
/// `r` and `f`, or the error message.
pub open spec fn parse(args: Seq<Seq<char>>) -> Result<ConfigView, Seq<char>> {
    if args.len() == 0 {
        Err(invalid_arguments_msg())
    } else if path_of(joined(args)).len() == 0 {
        Err(missing_directory_msg())
    } else {
        Ok(
            ConfigView {
                directory: path_of(joined(args)),
                recursively: has_flag(joined(args), 'r'),
                force: has_flag(joined(args), 'f'),
            },
        )
    }
}

proof fn lemma_token_end_bounds(s: Seq<char>, i: int)
    requires
        0 <= i <= s.len(),
    ensures
        i <= token_end(s, i) <= s.len(),
        i < s.len() && s[i] != ' ' ==> i < token_end(s, i),
    decreases s.len() - i,
{
    if i < s.len() && s[i] != ' ' {
        lemma_token_end_bounds(s, i + 1);
    }
}

proof fn lemma_first_path_bounds(s: Seq<char>, i: int)
    requires
        0 <= i <= s.len(),
    ensures
        i <= first_path_from(s, i) <= s.len(),
        first_path_from(s, i) < s.len() ==> path_start(s, first_path_from(s, i)),
    decreases s.len() - i,
{
    if i < s.len() && !path_start(s, i) {
        lemma_first_path_bounds(s, i + 1);
    }
}

proof fn lemma_dash_token_starts_with_dash(s: Seq<char>, j: int)
    requires
        in_dash_token(s, j),
    ensures
        exists|st: int| 0 <= st <= j && token_start(s, st) && s[st] == '-',
    decreases j,
{
    if !token_start(s, j) {
        lemma_dash_token_starts_with_dash(s, j - 1);
    }
}

proof fn lemma_first_path_at_most(s: Seq<char>, k: int, i: int)
    requires
        0 <= k <= i,
        path_start(s, i),
    ensures
        first_path_from(s, k) <= i,
    decreases i - k,
{
    if !path_start(s, k) {
        lemma_first_path_at_most(s, k + 1, i);
    }
}

proof fn lemma_no_path_from(s: Seq<char>, k: int)
    requires
        0 <= k <= s.len(),
        forall|i: int| !path_start(s, i),
    ensures
        first_path_from(s, k) == s.len(),
    decreases s.len() - k,
{
    if k < s.len() {
        lemma_no_path_from(s, k + 1);
    }
}

/// An empty argument list is refused as invalid.
pub proof fn lemma_empty_args_invalid()
    ensures
        parse(Seq::<Seq<char>>::empty()) == Err::<ConfigView, Seq<char>>(invalid_arguments_msg()),
{
}

/// Arguments that hold a path and no token beginning with `-` parse to a
/// configuration in the standard mode.
pub proof fn lemma_plain_path_is_standard(args: Seq<Seq<char>>)
    requires
        args.len() > 0,
        exists|i: int| token_start(joined(args), i),
        forall|i: int| token_start(joined(args), i) ==> joined(args)[i] != '-',
    ensures
        parse(args) is Ok,
        mode_of(parse(args)->Ok_0.recursively, parse(args)->Ok_0.force) == Modes::Standard,
{
    let s = joined(args);
    let i = choose|i: int| token_start(s, i);
    assert(path_start(s, i));
    lemma_first_path_at_most(s, 0, i);
    lemma_first_path_bounds(s, 0);
    let p = first_path_from(s, 0);
    lemma_token_end_bounds(s, p);
    assert(path_of(s).len() > 0);
    assert forall|c: char| !has_flag(s, c) by {
        if has_flag(s, c) {
            let j = choose|j: int| flag_at(s, j, c);
            lemma_dash_token_starts_with_dash(s, j);
        }
    }
}

/// Arguments whose every token begins with `-` fail: the path is missing.
pub proof fn lemma_flags_only_missing_directory(args: Seq<Seq<char>>)
    requires
        args.len() > 0,
        forall|i: int| token_start(joined(args), i) ==> joined(args)[i] == '-',
    ensures
        parse(args) == Err::<ConfigView, Seq<char>>(missing_directory_msg()),
{
    let s = joined(args);
    lemma_no_path_from(s, 0);
    assert(path_of(s).len() == 0);
}

proof fn lemma_dash_left(x: Seq<char>, y: Seq<char>, j: int)
    requires
        0 <= j < x.len(),
    ensures
        in_dash_token(x + seq![' '] + y, j) == in_dash_token(x, j),
        token_start(x + seq![' '] + y, j) == token_start(x, j),
    decreases j,
{
    let s = x + seq![' '] + y;
    assert(s[j] == x[j]);
    if j > 0 {
        assert(s[j - 1] == x[j - 1]);
        lemma_dash_left(x, y, j - 1);
    }
}

proof fn lemma_dash_right(x: Seq<char>, y: Seq<char>, k: int)
    requires
        0 <= k < y.len(),
    ensures
        in_dash_token(x + seq![' '] + y, x.len() + 1 + k) == in_dash_token(y, k),
        token_start(x + seq![' '] + y, x.len() + 1 + k) == token_start(y, k),
    decreases k,
{
    let s = x + seq![' '] + y;
    let j = x.len() + 1 + k;
    assert(s[j] == y[k]);
    if k > 0 {
        assert(s[j - 1] == y[k - 1]);
        lemma_dash_right(x, y, k - 1);
    } else {
        assert(s[j - 1] == ' ');
        assert(!in_dash_token(s, j - 1));
    }
}

/// A flag is given in two pieces joined by a space exactly when it is given
/// in one of them.
proof fn lemma_flags_of_concat(x: Seq<char>, y: Seq<char>, c: char)
    ensures
        has_flag(x + seq![' '] + y, c) == (has_flag(x, c) || has_flag(y, c)),
{
    let s = x + seq![' '] + y;
    if has_flag(s, c) {
        let j = choose|j: int| flag_at(s, j, c);
        if j < x.len() {
            lemma_dash_left(x, y, j);
            assert(flag_at(x, j, c));
        } else if j == x.len() {
            assert(s[j] == ' ');
        } else {
            lemma_dash_right(x, y, j - x.len() - 1);
            assert(flag_at(y, j - x.len() - 1, c));
        }
    }
    if has_flag(x, c) {
        let j = choose|j: int| flag_at(x, j, c);
        lemma_dash_left(x, y, j);
        assert(flag_at(s, j, c));
    }
    if has_flag(y, c) {
        let k = choose|k: int| flag_at(y, k, c);
        lemma_dash_right(x, y, k);
        assert(flag_at(s, x.len() + 1 + k, c));
    }
}

/// A flag is given in the joined arguments exactly when one argument gives it.
proof fn lemma_flags_of_joined(args: Seq<Seq<char>>, c: char)
    ensures
        has_flag(joined(args), c) == (exists|i: int| 0 <= i < args.len() && has_flag(#[trigger] args[i], c)),
    decreases args.len(),
{
    if args.len() == 0 {
        assert(!has_flag(joined(args), c));
    } else if args.len() == 1 {
    } else {
        let init = args.drop_last();
        lemma_flags_of_joined(init, c);
        lemma_flags_of_concat(joined(init), args.last(), c);
        if has_flag(joined(args), c) {
            if has_flag(joined(init), c) {
                let i = choose|i: int| 0 <= i < init.len() && has_flag(#[trigger] init[i], c);
                assert(args[i] == init[i]);
            } else {
                assert(has_flag(args[args.len() - 1], c));
            }
        }
        if exists|i: int| 0 <= i < args.len() && has_flag(#[trigger] args[i], c) {
            let i = choose|i: int| 0 <= i < args.len() && has_flag(#[trigger] args[i], c);
            if i < init.len() {
                assert(init[i] == args[i]);
            }
        }
    }
}

proof fn lemma_flags_same_arguments(args1: Seq<Seq<char>>, args2: Seq<Seq<char>>, c: char)
    requires
        args1.to_multiset() == args2.to_multiset(),
        has_flag(joined(args1), c),
    ensures
        has_flag(joined(args2), c),
{
    broadcast use vstd::seq_lib::to_multiset_contains;

    lemma_flags_of_joined(args1, c);
    lemma_flags_of_joined(args2, c);
    let i = choose|i: int| 0 <= i < args1.len() && has_flag(#[trigger] args1[i], c);
    let a = args1[i];
    assert(args1.contains(a));
    assert(args1.to_multiset().count(a) > 0);
    assert(args2.contains(a));
    let j = choose|j: int| 0 <= j < args2.len() && args2[j] == a;
    assert(has_flag(args2[j], c));
}

/// The flags do not depend on the order of the arguments, nor on where the
/// path stands among them: arguments that are a reordering of each other give
/// the same flags, and the same mode wherever both parse.
pub proof fn lemma_flags_ignore_order(args1: Seq<Seq<char>>, args2: Seq<Seq<char>>)
    requires
        args1.to_multiset() == args2.to_multiset(),
    ensures
        has_flag(joined(args1), 'r') == has_flag(joined(args2), 'r'),
        has_flag(joined(args1), 'f') == has_flag(joined(args2), 'f'),
        parse(args1) is Ok && parse(args2) is Ok ==> mode_of(
            parse(args1)->Ok_0.recursively,
            parse(args1)->Ok_0.force,
        ) == mode_of(parse(args2)->Ok_0.recursively, parse(args2)->Ok_0.force),
{
    if has_flag(joined(args1), 'r') {
        lemma_flags_same_arguments(args1, args2, 'r');
    }
    if has_flag(joined(args2), 'r') {
        lemma_flags_same_arguments(args2, args1, 'r');
    }
    if has_flag(joined(args1), 'f') {
        lemma_flags_same_arguments(args1, args2, 'f');
    }
    if has_flag(joined(args2), 'f') {
        lemma_flags_same_arguments(args2, args1, 'f');
    }
}

/// Joins the arguments with single spaces.
fn join_args(args: &Vec<String>) -> (line: String)
    ensures
        line@ == joined(arg_views(args@)),
{
    let ghost views = arg_views(args@);
    let mut line = String::new();
    let mut a: usize = 0;
    while a < args.len()
        invariant
            a <= args.len(),
            views == arg_views(args@),
            line@ == joined(views.take(a as int)),
        decreases args.len() - a,
    {
        proof {
            assert(views.take(a + 1).drop_last() =~= views.take(a as int));
        }
        if a > 0 {
            line.append(" ");
            proof {
                reveal_strlit(" ");
            }
        }
        line.append(args[a].as_str());
        proof {
            assert(views[a as int] == args@[a as int]@);
            if a == 0 {
                assert(line@ =~= joined(views.take(1)));
            } else {
                assert(line@ =~= joined(views.take(a + 1)));
            }
        }
        a += 1;
    }
    proof {
        assert(views.take(args.len() as int) =~= views);
    }
    line
}

/// Whether the flag `c` is given in `s`.
fn flag_given(s: &str, c: char) -> (r: bool)
    ensures
        r == has_flag(s@, c),
{
    let len = s.unicode_len();
    let mut found = false;
    let mut dash = false;
    let mut i: usize = 0;
    while i < len
        invariant
            len == s@.len(),
            i <= len,
            dash == in_dash_token(s@, i - 1),
            found == exists|j: int| 0 <= j < i && #[trigger] flag_at(s@, j, c),
        decreases len - i,
    {
        let ch = s.get_char(i);
        let starts = ch != ' ' && (i == 0 || s.get_char(i - 1) == ' ');
        assert(starts == token_start(s@, i as int));
        if ch == ' ' {
            dash = false;
        } else if starts {
            dash = ch == '-';
        } else if dash && ch == c {
            found = true;
            assert(flag_at(s@, i as int, c));
        }
        assert(dash == in_dash_token(s@, i as int));
        assert(flag_at(s@, i as int, c) ==> found);
        i += 1;
    }
    found
}

/// The first position where a path token starts, or the length of `s`.
fn find_path_start(s: &str) -> (p: usize)
    ensures
        p == first_path_from(s@, 0),
{
    let len = s.unicode_len();
    let mut i: usize = 0;
    while i < len
        invariant
            len == s@.len(),
            i <= len,
            first_path_from(s@, 0) == first_path_from(s@, i as int),
        decreases len - i,
    {
        let ch = s.get_char(i);
        let starts = ch != ' ' && (i == 0 || s.get_char(i - 1) == ' ');
        if starts && ch != '-' {
            return i;
        }
        i += 1;
    }
    i
}

/// The end of the run of non-space characters that begins at `from`.
fn find_token_end(s: &str, from: usize) -> (e: usize)
    requires
        from <= s@.len(),
    ensures
        e == token_end(s@, from as int),
{
    let len = s.unicode_len();
    let mut i: usize = from;
    while i < len && s.get_char(i) != ' '
        invariant
            len == s@.len(),
            from <= i <= len,
            token_end(s@, from as int) == token_end(s@, i as int),
        decreases len - i,
    {
        i += 1;
    }
    i
}

impl Config {
    /// Parses the command-line arguments (the program name left out).
    /// The arguments are joined with single spaces; a token that begins with
    /// `-` gives its further characters as flags, of which `r` and `f` are
    /// known; the first other token is the path.
    pub fn new(args: Vec<String>) -> (r: Result<Config, String>)
        ensures
            match r {
                Ok(c) => parse(arg_views(args@)) == Ok::<ConfigView, Seq<char>>(c@),
                Err(e) => parse(arg_views(args@)) == Err::<ConfigView, Seq<char>>(e@),
            },
    {
        if args.len() == 0 {
            return Err(String::from_str("Invalid args length"));
        }
        let line = join_args(&args);
        let s = line.as_str();
        let p = find_path_start(s);
        proof {
            lemma_first_path_bounds(s@, 0);
        }
        let e = find_token_end(s, p);
        proof {
            lemma_token_end_bounds(s@, p as int);
        }
        if e == p {
            return Err(String::from_str("Directory missing"));
        }
        let directory = String::from_str(s.substring_char(p, e));
        let recursively = flag_given(s, 'r');
        let force = flag_given(s, 'f');
        Ok(Config { directory, recursively, force })
    }
}

} // verus!
