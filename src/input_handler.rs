//! Turns a command line as typed into words: quotes, escapes, variables
//! and the home directory are expanded here; a word with an unquoted `*`
//! is marked as a pathname pattern for the caller to match against the
//! file system.
use vstd::prelude::*;
use crate::token::{token_is, token_view};

verus! {

broadcast use vstd::string::group_string_axioms;

/// Why a command line cannot be read into words as it stands.
#[derive(Debug, Clone, Copy, PartialEq, Eq, Structural)]
pub enum ExpansionError {
    /// The line ends inside a quote opened by this character.
    PairNotFound(char),
    /// The line ends with a backslash: it continues on the next line.
    LineContinues,
}

/// A word of the command line, and whether it holds an unquoted `*`.
#[derive(Debug, Clone, PartialEq, Eq)]
pub struct Word {
    pub text: String,
    pub pattern: bool,
}

impl View for Word {
    type V = (Seq<char>, bool);

    open spec fn view(&self) -> (Seq<char>, bool) {
        (self.text@, self.pattern)
    }
}

/// Inside which quote the reading stands.
#[derive(Debug, Clone, Copy, PartialEq, Eq, Structural)]
pub enum Quote {
    Unquoted,
    Single,
    Double,
}

/// Where the reading of a line stands: the words done, the word being
/// read, whether it had a quote (a quoted empty word is still a word) or an
/// unquoted `*`, and the open quote.
pub struct LexState {
    pub words: Seq<(Seq<char>, bool)>,
    pub cur: Seq<char>,
    pub quoted: bool,
    pub pattern: bool,
    pub quote: Quote,
}

pub open spec fn is_blank(c: char) -> bool {
    c == ' ' || c == '\t' || c == '\n' || c == '\r'
}

pub open spec fn is_name_char(c: char) -> bool {
    ('a' <= c && c <= 'z') || ('A' <= c && c <= 'Z') || ('0' <= c && c <= '9') || c == '_'
}

/// How many characters of a variable name start at `i`.
pub open spec fn name_len(t: Seq<char>, i: int) -> nat
    decreases t.len() - i,
{
    if 0 <= i < t.len() && is_name_char(t[i]) {
        1 + name_len(t, i + 1)
    } else {
        0
    }
}

/// The value of the first variable named `name` in `vars`; empty where
/// there is none.
pub open spec fn lookup(vars: Seq<(Seq<char>, Seq<char>)>, name: Seq<char>) -> Seq<char>
    decreases vars.len(),
{
    if vars.len() == 0 {
        seq![]
    } else if vars[0].0 == name {
        vars[0].1
    } else {
        lookup(vars.drop_first(), name)
    }
}

pub open spec fn vars_view(vars: Seq<(String, String)>) -> Seq<(Seq<char>, Seq<char>)> {
    vars.map_values(|p: (String, String)| (p.0@, p.1@))
}

/// The state after the word being read is closed.
pub open spec fn end_word(st: LexState) -> LexState {
    LexState {
        words: if st.cur.len() > 0 || st.quoted {
            st.words.push((st.cur, st.pattern))
        } else {
            st.words
        },
        cur: seq![],
        quoted: false,
        pattern: false,
        quote: st.quote,
    }
}

pub open spec fn add_text(st: LexState, s: Seq<char>) -> LexState {
    LexState { cur: st.cur + s, ..st }
}

/// The words of `t` read from position `i` in state `st`, where `vars`
/// gives the variables and `home` the home directory, if known.
/// Outside quotes: blanks separate words; `'` and `"` open quotes; a
/// backslash takes the next character as it is, and joins the next line
/// when that character is a line break; `$name` is the variable's value;
/// `~` that starts a word and ends it or comes before `/` is the home
/// directory; `*` marks the word as a pattern. Inside `'...'` every
/// character stands as it is; inside `"..."` only `$name` is expanded.
pub open spec fn lex_from(
    t: Seq<char>,
    i: int,
    st: LexState,
    vars: Seq<(Seq<char>, Seq<char>)>,
    home: Option<Seq<char>>,
) -> Result<Seq<(Seq<char>, bool)>, ExpansionError>
    decreases t.len() - i,
    via lex_from_decreases
{
    if i < 0 || i >= t.len() {
        match st.quote {
            Quote::Single => Err(ExpansionError::PairNotFound('\'')),
            Quote::Double => Err(ExpansionError::PairNotFound('"')),
            Quote::Unquoted => Ok(end_word(st).words),
        }
    } else {
        let c = t[i];
        let k = name_len(t, i + 1);
        match st.quote {
            Quote::Single => if c == '\'' {
                lex_from(t, i + 1, LexState { quote: Quote::Unquoted, ..st }, vars, home)
            } else {
                lex_from(t, i + 1, add_text(st, seq![c]), vars, home)
            },
            Quote::Double => if c == '"' {
                lex_from(t, i + 1, LexState { quote: Quote::Unquoted, ..st }, vars, home)
            } else if c == '$' && k > 0 {
                lex_from(t, i + 1 + k, add_text(st, lookup(vars, t.subrange(i + 1, i + 1 + k))), vars, home)
            } else {
                lex_from(t, i + 1, add_text(st, seq![c]), vars, home)
            },
            Quote::Unquoted => if c == '\'' {
                lex_from(t, i + 1, LexState { quote: Quote::Single, quoted: true, ..st }, vars, home)
            } else if c == '"' {
                lex_from(t, i + 1, LexState { quote: Quote::Double, quoted: true, ..st }, vars, home)
            } else if c == '\\' {
                if i + 1 >= t.len() || (t[i + 1] == '\n' && i + 2 >= t.len()) {
                    Err(ExpansionError::LineContinues)
                } else if t[i + 1] == '\n' {
                    lex_from(t, i + 2, st, vars, home)
                } else {
                    lex_from(t, i + 2, add_text(st, seq![t[i + 1]]), vars, home)
                }
            } else if c == '$' && k > 0 {
                lex_from(t, i + 1 + k, add_text(st, lookup(vars, t.subrange(i + 1, i + 1 + k))), vars, home)
            } else if c == '~' && st.cur.len() == 0 && !st.quoted && home is Some && (i + 1 >= t.len()
                || t[i + 1] == '/' || is_blank(t[i + 1])) {
                lex_from(t, i + 1, add_text(st, home->0), vars, home)
            } else if c == '*' {
                lex_from(t, i + 1, LexState { cur: st.cur + seq![c], pattern: true, ..st }, vars, home)
            } else if is_blank(c) {
                lex_from(t, i + 1, end_word(st), vars, home)
            } else {
                lex_from(t, i + 1, add_text(st, seq![c]), vars, home)
            },
        }
    }
}

/// A name that starts at `i` ends within `t`.
pub proof fn lemma_name_len_bound(t: Seq<char>, i: int)
    requires
        0 <= i,
    ensures
        i + name_len(t, i) <= t.len() || name_len(t, i) == 0,
    decreases t.len() - i,
{
    if 0 <= i < t.len() && is_name_char(t[i]) {
        lemma_name_len_bound(t, i + 1);
    }
}

#[via_fn]
proof fn lex_from_decreases(
    t: Seq<char>,
    i: int,
    st: LexState,
    vars: Seq<(Seq<char>, Seq<char>)>,
    home: Option<Seq<char>>,
) {
    if 0 <= i < t.len() {
        lemma_name_len_bound(t, i + 1);
    }
}

pub open spec fn initial_lex_state() -> LexState {
    LexState { words: seq![], cur: seq![], quoted: false, pattern: false, quote: Quote::Unquoted }
}

/// The words of a whole command line.
pub open spec fn lex(t: Seq<char>, vars: Seq<(Seq<char>, Seq<char>)>, home: Option<Seq<char>>) -> Result<
    Seq<(Seq<char>, bool)>,
    ExpansionError,
> {
    lex_from(t, 0, initial_lex_state(), vars, home)
}

pub open spec fn words_view(r: Result<Vec<Word>, ExpansionError>) -> Result<Seq<(Seq<char>, bool)>, ExpansionError> {
    match r {
        Ok(ws) => Ok(ws@.map_values(|w: Word| w@)),
        Err(e) => Err(e),
    }
}

pub open spec fn option_view(o: Option<String>) -> Option<Seq<char>> {
    match o {
        Some(s) => Some(s@),
        None => None,
    }
}

/// The characters of `s`, in order.
fn chars_of(s: &str) -> (r: Vec<char>)
    ensures
        r@ == s@,
{
    let mut v: Vec<char> = Vec::new();
    for c in it: s.chars()
        invariant
            it.seq() == s@,
            v@ == s@.take(it.index() as int),
    {
        v.push(c);
        proof {
            assert(v@ =~= s@.take(it.index() + 1));
        }
    }
    proof {
        assert(v@ =~= s@);
    }
    v
}

fn is_blank_char(c: char) -> (r: bool)
    ensures
        r == is_blank(c),
{
    c == ' ' || c == '\t' || c == '\n' || c == '\r'
}

fn is_name_character(c: char) -> (r: bool)
    ensures
        r == is_name_char(c),
{
    (c >= 'a' && c <= 'z') || (c >= 'A' && c <= 'Z') || (c >= '0' && c <= '9') || c == '_'
}

/// The value of the variable `name`, where `vars` has one.
fn lookup_var<'a>(vars: &'a Vec<(String, String)>, name: &str) -> (r: Option<&'a String>)
    ensures
        match r {
            Some(v) => v@ == lookup(vars_view(vars@), name@),
            None => lookup(vars_view(vars@), name@) == Seq::<char>::empty(),
        },
{
    let ghost all = vars_view(vars@);
    let mut k: usize = 0;
    proof {
        assert(all.subrange(0, all.len() as int) =~= all);
    }
    while k < vars.len()
        invariant
            k <= vars@.len(),
            all == vars_view(vars@),
            lookup(all.subrange(k as int, all.len() as int), name@) == lookup(all, name@),
        decreases vars@.len() - k,
    {
        let ghost rest = all.subrange(k as int, all.len() as int);
        assert(rest[0] == all[k as int]);
        assert(rest.drop_first() =~= all.subrange(k + 1, all.len() as int));
        if token_is(vars[k].0.as_str(), name) {
            return Some(&vars[k].1);
        }
        k = k + 1;
    }
    proof {
        assert(all.subrange(k as int, all.len() as int) =~= seq![]);
    }
    None
}

/// Closes the word being read: it is added where it has text or a quote.
fn close_word(words: &mut Vec<Word>, cur: &mut String, quoted: &mut bool, pattern: &mut bool)
    ensures
        final(words)@.map_values(|w: Word| w@) == end_word(
            LexState {
                words: old(words)@.map_values(|w: Word| w@),
                cur: old(cur)@,
                quoted: *old(quoted),
                pattern: *old(pattern),
                quote: Quote::Unquoted,
            },
        ).words,
        final(cur)@ == Seq::<char>::empty(),
        !*final(quoted),
        !*final(pattern),
{
    let ghost before = words@;
    if cur.unicode_len() > 0 || *quoted {
        let text = cur.clone();
        words.push(Word { text, pattern: *pattern });
        proof {
            assert(words@.map_values(|w: Word| w@) =~= before.map_values(|w: Word| w@).push(
                (old(cur)@, *old(pattern)),
            ));
        }
    }
    *cur = String::new();
    *quoted = false;
    *pattern = false;
}

/// Where the variable name that starts at `start` ends.
fn end_of_name(chars: &Vec<char>, start: usize) -> (r: usize)
    requires
        start <= chars@.len(),
    ensures
        start <= r <= chars@.len(),
        r - start == name_len(chars@, start as int),
{
    let n = chars.len();
    let mut end: usize = start;
    while end < n && is_name_character(chars[end])
        invariant
            n == chars@.len(),
            start <= end <= n,
            name_len(chars@, start as int) == (end - start) + name_len(chars@, end as int),
        decreases n - end,
    {
        end = end + 1;
    }
    end
}

pub open spec fn state_of(words: Seq<Word>, cur: Seq<char>, quoted: bool, pattern: bool, quote: Quote) -> LexState {
    LexState { words: words.map_values(|w: Word| w@), cur, quoted, pattern, quote }
}

/// Reads a command line into words, as `lex` says, with the variables
/// `vars` and the home directory `home`. Fails where the line ends inside a
/// quote or with a backslash, so that the caller can read the next line,
/// join it to this one, and read again.
pub fn expand(input_raw: &str, vars: &Vec<(String, String)>, home: Option<String>) -> (r: Result<Vec<Word>, ExpansionError>)
    ensures
        words_view(r) == lex(input_raw@, vars_view(vars@), option_view(home)),
{
    let ghost t = input_raw@;
    let ghost vs = vars_view(vars@);
    let ghost h = option_view(home);
    let chars = chars_of(input_raw);
    let n = chars.len();
    let mut words: Vec<Word> = Vec::new();
    let mut cur = String::new();
    let mut quoted = false;
    let mut pattern = false;
    let mut quote = Quote::Unquoted;
    let mut i: usize = 0;
    proof {
        assert(words@.map_values(|w: Word| w@) =~= seq![]);
    }
    while i < n
        invariant
            chars@ == t,
            t == input_raw@,
            n == t.len(),
            i <= n,
            vs == vars_view(vars@),
            h == option_view(home),
            lex_from(t, i as int, state_of(words@, cur@, quoted, pattern, quote), vs, h) == lex(t, vs, h),
        decreases n - i,
    {
        let c = chars[i];
        let name_end = if c == '$' {
            end_of_name(&chars, i + 1)
        } else {
            i + 1
        };
        proof {
            assert(input_raw@.subrange(i as int, i + 1) =~= seq![c]);
            lemma_name_len_bound(t, i + 1);
        }
        match quote {
            Quote::Single => {
                if c == '\'' {
                    quote = Quote::Unquoted;
                } else {
                    cur.append(input_raw.substring_char(i, i + 1));
                }
                i = i + 1;
            },
            Quote::Double => {
                if c == '"' {
                    quote = Quote::Unquoted;
                    i = i + 1;
                } else if c == '$' && name_end > i + 1 {
                    let name = input_raw.substring_char(i + 1, name_end);
                    match lookup_var(vars, name) {
                        Some(v) => cur.append(v.as_str()),
                        None => {
                            proof {
                                assert(cur@ + lookup(vs, name@) =~= cur@);
                            }
                        },
                    }
                    i = name_end;
                } else {
                    cur.append(input_raw.substring_char(i, i + 1));
                    i = i + 1;
                }
            },
            Quote::Unquoted => {
                if c == '\'' {
                    quote = Quote::Single;
                    quoted = true;
                    i = i + 1;
                } else if c == '"' {
                    quote = Quote::Double;
                    quoted = true;
                    i = i + 1;
                } else if c == '\\' {
                    if i + 1 >= n || (chars[i + 1] == '\n' && i + 2 >= n) {
                        return Err(ExpansionError::LineContinues);
                    } else if chars[i + 1] == '\n' {
                        i = i + 2;
                    } else {
                        proof {
                            assert(input_raw@.subrange(i + 1, i + 2) =~= seq![t[i + 1]]);
                        }
                        cur.append(input_raw.substring_char(i + 1, i + 2));
                        i = i + 2;
                    }
                } else if c == '$' && name_end > i + 1 {
                    let name = input_raw.substring_char(i + 1, name_end);
                    match lookup_var(vars, name) {
                        Some(v) => cur.append(v.as_str()),
                        None => {
                            proof {
                                assert(cur@ + lookup(vs, name@) =~= cur@);
                            }
                        },
                    }
                    i = name_end;
                } else if c == '~' && cur.unicode_len() == 0 && !quoted && home.is_some() && (i + 1 >= n
                    || chars[i + 1] == '/' || is_blank_char(chars[i + 1])) {
                    match &home {
                        Some(d) => cur.append(d.as_str()),
                        None => {},
                    }
                    i = i + 1;
                } else if c == '*' {
                    cur.append(input_raw.substring_char(i, i + 1));
                    pattern = true;
                    i = i + 1;
                } else if is_blank_char(c) {
                    close_word(&mut words, &mut cur, &mut quoted, &mut pattern);
                    i = i + 1;
                } else {
                    cur.append(input_raw.substring_char(i, i + 1));
                    i = i + 1;
                }
            },
        }
    }
    match quote {
        Quote::Single => Err(ExpansionError::PairNotFound('\'')),
        Quote::Double => Err(ExpansionError::PairNotFound('"')),
        Quote::Unquoted => {
            close_word(&mut words, &mut cur, &mut quoted, &mut pattern);
            Ok(words)
        },
    }
}

/// Relies on dirs::home_dir: the user's home directory, where one is
/// known, as text. It depends on the environment, so nothing is promised
/// of it.
#[verifier::external_body]
fn home_dir() -> (r: Option<String>) {
    match dirs::home_dir() {
        Some(p) => p.to_str().map(|s| s.to_owned()),
        None => None,
    }
}

/// Reads a command line into words as `expand` does, with the home
/// directory of the user who runs the shell, whatever it is.
pub fn expand_line(input_raw: &str, vars: &Vec<(String, String)>) -> (r: Result<Vec<Word>, ExpansionError>)
    ensures
        exists|h: Option<Seq<char>>| words_view(r) == lex(input_raw@, vars_view(vars@), h),
{
    let home = home_dir();
    let ghost h = option_view(home);
    let r = expand(input_raw, vars, home);
    proof {
        assert(words_view(r) == lex(input_raw@, vars_view(vars@), h));
    }
    r
}

/// Whether the name `s` matches the pattern `p`, where `*` stands for any
/// run of characters and every other character for itself.
pub open spec fn glob_matches(p: Seq<char>, s: Seq<char>) -> bool
    decreases p.len() + s.len(),
{
    if p.len() == 0 {
        s.len() == 0
    } else if p[0] == '*' {
        glob_matches(p.drop_first(), s) || (s.len() > 0 && glob_matches(p, s.drop_first()))
    } else {
        s.len() > 0 && s[0] == p[0] && glob_matches(p.drop_first(), s.drop_first())
    }
}

/// Whether `name` matches `pattern`, as `glob_matches` says.
pub fn wildcard_match(pattern: &str, name: &str) -> (r: bool)
    ensures
        r == glob_matches(pattern@, name@),
{
    let p = chars_of(pattern);
    let s = chars_of(name);
    let m = p.len();
    let n = s.len();
    // row i holds, for each j, whether the name from j matches the pattern from i
    let mut next: Vec<bool> = Vec::new();
    let mut j: usize = 0;
    while j < n
        invariant
            j <= n,
            n == s@.len(),
            next@.len() == j,
            forall|q: int| 0 <= q < j ==> !next@[q],
        decreases n - j,
    {
        next.push(false);
        j = j + 1;
    }
    next.push(true);
    proof {
        assert forall|q: int| 0 <= q <= n implies next@[q] == glob_matches(p@.subrange(m as int, m as int), s@.subrange(q, n as int)) by {
            assert(p@.subrange(m as int, m as int).len() == 0);
        }
    }
    let mut i: usize = m;
    while i > 0
        invariant
            i <= m,
            m == p@.len(),
            n == s@.len(),
            p@ == pattern@,
            s@ == name@,
            next@.len() == n + 1,
            forall|q: int| 0 <= q <= n ==> #[trigger] next@[q] == glob_matches(p@.subrange(i as int, m as int), s@.subrange(q, n as int)),
        decreases i,
    {
        let pi = i - 1;
        let ghost pat = p@.subrange(pi as int, m as int);
        proof {
            assert(pat.drop_first() =~= p@.subrange(i as int, m as int));
            assert(pat[0] == p@[pi as int]);
        }
        let mut row: Vec<bool> = Vec::new();
        let mut k: usize = 0;
        while k < n
            invariant
                k <= n,
                row@.len() == k,
            decreases n - k,
        {
            row.push(false);
            k = k + 1;
        }
        // the empty rest of the name matches only a pattern of stars
        row.push(p[pi] == '*' && next[n]);
        proof {
            assert(s@.subrange(n as int, n as int).len() == 0);
        }
        let mut q: usize = n;
        while q > 0
            invariant
                q <= n,
                n == s@.len(),
                m == p@.len(),
                pi < m,
                pat == p@.subrange(pi as int, m as int),
                pat.drop_first() == p@.subrange(pi + 1, m as int),
                pat[0] == p@[pi as int],
                row@.len() == n + 1,
                next@.len() == n + 1,
                forall|x: int| 0 <= x <= n ==> #[trigger] next@[x] == glob_matches(pat.drop_first(), s@.subrange(x, n as int)),
                forall|x: int| q <= x <= n ==> #[trigger] row@[x] == glob_matches(pat, s@.subrange(x, n as int)),
            decreases q,
        {
            let x = q - 1;
            let ghost rest = s@.subrange(x as int, n as int);
            proof {
                assert(rest.drop_first() =~= s@.subrange(x + 1, n as int));
                assert(rest[0] == s@[x as int]);
            }
            let v = if p[pi] == '*' {
                next[x] || row[x + 1]
            } else {
                s[x] == p[pi] && next[x + 1]
            };
            proof {
                assert(v == glob_matches(pat, rest));
            }
            row.set(x, v);
            q = x;
        }
        next = row;
        i = pi;
    }
    proof {
        assert(p@.subrange(0, m as int) =~= pattern@);
        assert(s@.subrange(0, n as int) =~= name@);
    }
    next[0]
}

/// The entries, in the order given, whose names match `pattern`.
pub fn matching_entries(entries: &Vec<String>, pattern: &str) -> (r: Vec<String>)
    ensures
        token_view(r@) == token_view(entries@).filter(|e: Seq<char>| glob_matches(pattern@, e)),
{
    let ghost all = token_view(entries@);
    let mut out: Vec<String> = Vec::new();
    let mut k: usize = 0;
    proof {
        reveal(Seq::filter);
        assert(all.take(0).filter(|e: Seq<char>| glob_matches(pattern@, e)) =~= seq![]);
        assert(token_view(out@) =~= seq![]);
    }
    while k < entries.len()
        invariant
            k <= entries@.len(),
            all == token_view(entries@),
            token_view(out@) == all.take(k as int).filter(|e: Seq<char>| glob_matches(pattern@, e)),
        decreases entries@.len() - k,
    {
        let ghost before = out@;
        proof {
            reveal(Seq::filter);
            assert(all.take(k + 1).drop_last() =~= all.take(k as int));
            assert(all.take(k + 1).last() == all[k as int]);
        }
        if wildcard_match(pattern, entries[k].as_str()) {
            out.push(entries[k].clone());
            proof {
                assert(token_view(out@) =~= token_view(before).push(all[k as int]));
            }
        }
        k = k + 1;
    }
    proof {
        assert(all.take(k as int) =~= all);
    }
    out
}

} // verus!
