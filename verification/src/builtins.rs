//! The builtin macro catalog.
//!
//! Each builtin consumes the remainder of an argument cursor and appends
//! text to an output buffer, or fails with a structured error.  Builtins
//! that need the outside world — an environment variable, a path-existence
//! check, the scripting bridge, a file of definitions, or a re-entry into
//! the expansion driver — never perform the outside step themselves:
//! they hand the driver a [`Request`] carrying plain values, and a
//! matching completion function takes the outcome back as a plain value.
//! Everything on this side of that boundary is verified.

use vstd::prelude::*;
use crate::cursor::{Cursor, after_line, line_end};
use crate::error::MacroError;
use crate::interp::{Diagnostic, Interp, Severity};
use crate::registry::MacroType;
use crate::text;

verus! {

/// Identifies one entry of the builtin catalog.
#[derive(Clone, Copy, PartialEq, Eq, Structural)]
pub enum BuiltinId {
    Define,
    Global,
    Undefine,
    Load,
    Expand,
    Expr,
    Lua,
    Macrobody,
    Quote,
    Gsub,
    Len,
    Lower,
    Rep,
    Reverse,
    Sub,
    Upper,
    Shescape,
    Shrink,
    Basename,
    Dirname,
    Exists,
    Suffix,
    Url2path,
    U2p,
    Uncompress,
    Getncpus,
    Getconfdir,
    Getenv,
    Rpmversion,
    Echo,
    Warn,
    Error,
    Verbose,
    SourceNum,
    PatchNum,
    Trace,
    Dump,
}

/// Outside work a builtin needs from the expansion driver.
pub enum Request {
    /// Re-enter expansion over this bounded view and append the result.
    Expand { view: Cursor },
    /// Expand `text` as top-level macro text, then append `rest` raw.
    ExpandThenAppend { text: Vec<char>, rest: Vec<char> },
    /// Read the environment variable `name`, then call `getenv_result`.
    Env { name: Vec<char> },
    /// Read the configuration-directory variable, then call
    /// `getconfdir_result`.
    ConfDir,
    /// Check whether `path` exists, then call `exists_result`.
    ExistsCheck { path: Vec<char> },
    /// Run `script` through the scripting bridge, then call `lua_result`.
    Script { script: Vec<char> },
    /// Load macro definitions from the file at `path`.
    Load { path: Vec<char> },
    /// Write `lines` to standard output.
    WriteOut { lines: Vec<char> },
}

/// What one builtin did: either it finished by itself, or it needs the
/// driver to perform outside work.
pub enum Step {
    Done,
    Pending(Request),
}

/// The collected argument wrapped in double quotes, verbatim.
pub open spec fn quote_seq(s: Seq<char>) -> Seq<char> {
    seq!['"'] + s + seq!['"']
}

/// Shell escaping of one character: a single quote becomes `'\''`.
pub open spec fn esc_char(c: char) -> Seq<char> {
    if c == '\'' {
        seq!['\'', '\\', '\'', '\'']
    } else {
        seq![c]
    }
}

/// Shell escaping of a text, character by character.
pub open spec fn shescape_body(s: Seq<char>) -> Seq<char>
    decreases s.len(),
{
    if s.len() == 0 {
        Seq::empty()
    } else {
        shescape_body(s.drop_last()) + esc_char(s.last())
    }
}

/// The whole shell-safe quoting: the escaped text wrapped in single
/// quotes.
pub open spec fn shescape_seq(s: Seq<char>) -> Seq<char> {
    seq!['\''] + shescape_body(s) + seq!['\'']
}

/// The first index at or after `pos` (up to `end`) that does not hold
/// whitespace, or `end` if all of it is whitespace.
pub open spec fn skip_ws(buf: Seq<char>, pos: int, end: int) -> int
    decreases end - pos,
{
    if pos >= end {
        end
    } else if !text::is_space(buf[pos]) {
        pos
    } else {
        skip_ws(buf, pos + 1, end)
    }
}

/// Whitespace collapsing from position `i` on, given whether whitespace
/// was just crossed: runs of whitespace turn into one space, but only
/// when another non-space character follows.
pub open spec fn shrink_from(s: Seq<char>, i: int, space: bool) -> Seq<char>
    decreases s.len() - i,
{
    if i < 0 || i >= s.len() {
        Seq::empty()
    } else if text::is_space(s[i]) {
        shrink_from(s, i + 1, true)
    } else if space {
        seq![' ', s[i]] + shrink_from(s, i + 1, false)
    } else {
        seq![s[i]] + shrink_from(s, i + 1, false)
    }
}

/// The whole collapse: leading whitespace is dropped outright, inner runs
/// become single spaces, trailing whitespace disappears.
pub open spec fn shrink_seq(s: Seq<char>) -> Seq<char> {
    shrink_from(s, skip_ws(s, 0, s.len() as int), false)
}

/// The index of the last occurrence of `c`, if any.
pub open spec fn rfind(s: Seq<char>, c: char) -> Option<int>
    decreases s.len(),
{
    if s.len() == 0 {
        None
    } else if s.last() == c {
        Some(s.len() - 1)
    } else {
        rfind(s.drop_last(), c)
    }
}

/// The part after the last `/`, or the whole text if there is none.
pub open spec fn basename_seq(s: Seq<char>) -> Seq<char> {
    match rfind(s, '/') {
        None => s,
        Some(i) => s.subrange(i + 1, s.len() as int),
    }
}

/// The part before the last `/`, or the whole text if there is none.
pub open spec fn dirname_seq(s: Seq<char>) -> Seq<char> {
    match rfind(s, '/') {
        None => s,
        Some(i) => s.subrange(0, i),
    }
}

/// The part after the last `.`, or empty text if there is none.
pub open spec fn suffix_seq(s: Seq<char>) -> Seq<char> {
    match rfind(s, '.') {
        None => Seq::empty(),
        Some(i) => s.subrange(i + 1, s.len() as int),
    }
}

/// `skip_ws` is exactly the first position that is not whitespace or is
/// `end`.
pub proof fn lemma_skip_ws_at(buf: Seq<char>, pos: int, end: int, p: int)
    requires
        pos <= p <= end,
        forall|j: int| pos <= j < p ==> text::is_space(buf[j]),
        p < end ==> !text::is_space(buf[p]),
    ensures
        skip_ws(buf, pos, end) == p,
    decreases p - pos,
{
    if pos < p {
        lemma_skip_ws_at(buf, pos + 1, end, p);
    }
}

/// If `c` sits at `i` and nowhere later, `rfind` returns `i`.
proof fn lemma_rfind_at(s: Seq<char>, c: char, i: int)
    requires
        0 <= i < s.len(),
        s[i] == c,
        forall|k: int| i < k < s.len() ==> s[k] != c,
    ensures
        rfind(s, c) == Some(i),
    decreases s.len(),
{
    if i < s.len() - 1 {
        assert(s.drop_last()[i] == c);
        lemma_rfind_at(s.drop_last(), c, i);
    }
}

/// If `c` occurs nowhere, `rfind` misses.
proof fn lemma_rfind_none(s: Seq<char>, c: char)
    requires
        forall|k: int| 0 <= k < s.len() ==> s[k] != c,
    ensures
        rfind(s, c) is None,
    decreases s.len(),
{
    if s.len() > 0 {
        lemma_rfind_none(s.drop_last(), c);
    }
}

/// The index of the last occurrence of `c` in `v`, if any.
fn rfind_exec(v: &Vec<char>, c: char) -> (r: Option<usize>)
    ensures
        match r {
            Some(i) => i < v@.len() && rfind(v@, c) == Some(i as int),
            None => rfind(v@, c) is None,
        },
{
    let mut j: usize = v.len();
    while j > 0
        invariant
            j <= v@.len(),
            forall|k: int| j <= k < v@.len() ==> v@[k] != c,
        decreases j,
    {
        if v[j - 1] == c {
            proof {
                lemma_rfind_at(v@, c, j - 1);
            }
            return Some(j - 1);
        }
        j -= 1;
    }
    proof {
        lemma_rfind_none(v@, c);
    }
    None
}

/// Wraps the collected remaining argument in double quotes, verbatim.
pub fn quote(out: &mut Vec<char>, cur: &mut Cursor, buf: &Vec<char>)
    requires
        old(cur).wf(buf@.len()),
    ensures
        final(cur).pos == old(cur).end,
        final(cur).end == old(cur).end,
        final(cur).file == old(cur).file,
        final(out)@ == old(out)@ + quote_seq(old(cur).remaining(buf@)),
{
    out.push('"');
    let t = cur.collect_text(buf);
    text::append_text(out, &t);
    out.push('"');
    assert(out@ =~= old(out)@ + quote_seq(old(cur).remaining(buf@)));
}

/// Emits the code-point count of the remaining argument as decimal text.
pub fn len(out: &mut Vec<char>, cur: &mut Cursor, buf: &Vec<char>)
    requires
        old(cur).wf(buf@.len()),
    ensures
        final(cur).pos == old(cur).end,
        final(cur).end == old(cur).end,
        final(cur).file == old(cur).file,
        final(out)@ == old(out)@ + text::dec_of(old(cur).remaining(buf@).len()),
{
    let n = cur.len_remaining();
    cur.consume();
    text::push_decimal(out, n);
}

/// ASCII lower-casing of the remaining argument.
pub fn lower(out: &mut Vec<char>, cur: &mut Cursor, buf: &Vec<char>)
    requires
        old(cur).wf(buf@.len()),
    ensures
        final(cur).pos == old(cur).end,
        final(cur).end == old(cur).end,
        final(cur).file == old(cur).file,
        final(out)@ == old(out)@ + text::lower_seq(old(cur).remaining(buf@)),
{
    let t = cur.collect_text(buf);
    let mut i: usize = 0;
    while i < t.len()
        invariant
            i <= t@.len(),
            out@ == old(out)@ + text::lower_seq(t@).subrange(0, i as int),
        decreases t@.len() - i,
    {
        out.push(text::lower_char_exec(t[i]));
        assert(out@ =~= old(out)@ + text::lower_seq(t@).subrange(0, i as int + 1));
        i += 1;
    }
    assert(out@ =~= old(out)@ + text::lower_seq(t@));
}

/// ASCII upper-casing of the remaining argument.
pub fn upper(out: &mut Vec<char>, cur: &mut Cursor, buf: &Vec<char>)
    requires
        old(cur).wf(buf@.len()),
    ensures
        final(cur).pos == old(cur).end,
        final(cur).end == old(cur).end,
        final(cur).file == old(cur).file,
        final(out)@ == old(out)@ + text::upper_seq(old(cur).remaining(buf@)),
{
    let t = cur.collect_text(buf);
    let mut i: usize = 0;
    while i < t.len()
        invariant
            i <= t@.len(),
            out@ == old(out)@ + text::upper_seq(t@).subrange(0, i as int),
        decreases t@.len() - i,
    {
        out.push(text::upper_char_exec(t[i]));
        assert(out@ =~= old(out)@ + text::upper_seq(t@).subrange(0, i as int + 1));
        i += 1;
    }
    assert(out@ =~= old(out)@ + text::upper_seq(t@));
}

/// The remaining argument reversed by code point.
pub fn reverse(out: &mut Vec<char>, cur: &mut Cursor, buf: &Vec<char>)
    requires
        old(cur).wf(buf@.len()),
    ensures
        final(cur).pos == old(cur).end,
        final(cur).end == old(cur).end,
        final(cur).file == old(cur).file,
        final(out)@ == old(out)@ + text::rev_seq(old(cur).remaining(buf@)),
{
    let t = cur.collect_text(buf);
    let n = t.len();
    let mut i: usize = 0;
    while i < n
        invariant
            n == t@.len(),
            i <= n,
            out@ == old(out)@ + text::rev_seq(t@).subrange(0, i as int),
        decreases n - i,
    {
        out.push(t[n - 1 - i]);
        assert(out@ =~= old(out)@ + text::rev_seq(t@).subrange(0, i as int + 1));
        i += 1;
    }
    assert(out@ =~= old(out)@ + text::rev_seq(t@));
}

/// Shell-safe quoting: the remaining argument in single quotes, each
/// embedded single quote replaced by `'\''`.
pub fn shescape(out: &mut Vec<char>, cur: &mut Cursor, buf: &Vec<char>)
    requires
        old(cur).wf(buf@.len()),
    ensures
        final(cur).pos == old(cur).end,
        final(cur).end == old(cur).end,
        final(cur).file == old(cur).file,
        final(out)@ == old(out)@ + shescape_seq(old(cur).remaining(buf@)),
{
    out.push('\'');
    let t = cur.collect_text(buf);
    let mut i: usize = 0;
    while i < t.len()
        invariant
            i <= t@.len(),
            out@ == old(out)@ + seq!['\''] + shescape_body(t@.subrange(0, i as int)),
        decreases t@.len() - i,
    {
        let c = t[i];
        if c == '\'' {
            out.push('\'');
            out.push('\\');
            out.push('\'');
        }
        out.push(c);
        proof {
            let pre = t@.subrange(0, i as int + 1);
            assert(pre.drop_last() =~= t@.subrange(0, i as int));
            assert(pre.last() == t@[i as int]);
            assert(out@ =~= old(out)@ + seq!['\''] + shescape_body(pre));
        }
        i += 1;
    }
    assert(t@.subrange(0, t@.len() as int) =~= t@);
    out.push('\'');
    assert(out@ =~= old(out)@ + shescape_seq(t@));
}

/// Collapses whitespace runs in the remaining argument into single
/// spaces; leading and trailing whitespace disappears.
pub fn shrink(out: &mut Vec<char>, cur: &mut Cursor, buf: &Vec<char>)
    requires
        old(cur).wf(buf@.len()),
    ensures
        final(cur).pos == old(cur).end,
        final(cur).end == old(cur).end,
        final(cur).file == old(cur).file,
        final(out)@ == old(out)@ + shrink_seq(old(cur).remaining(buf@)),
{
    let t = cur.collect_text(buf);
    let n = t.len();
    let mut i: usize = 0;
    while i < n && text::is_space_exec(t[i])
        invariant
            n == t@.len(),
            i <= n,
            out@ == old(out)@,
            forall|j: int| 0 <= j < i ==> text::is_space(t@[j]),
        decreases n - i,
    {
        i += 1;
    }
    proof {
        lemma_skip_ws_at(t@, 0, n as int, i as int);
    }
    let mut space = false;
    while i < n
        invariant
            n == t@.len(),
            i <= n,
            out@ + shrink_from(t@, i as int, space) == old(out)@ + shrink_seq(t@),
        decreases n - i,
    {
        let c = t[i];
        if text::is_space_exec(c) {
            space = true;
        } else {
            if space {
                out.push(' ');
                space = false;
            }
            out.push(c);
        }
        proof {
            assert(out@ + shrink_from(t@, i as int + 1, space) =~= old(out)@ + shrink_seq(t@));
        }
        i += 1;
    }
    assert(out@ =~= out@ + shrink_from(t@, n as int, space));
    assert(out@ =~= old(out)@ + shrink_seq(t@));
}

/// The part of the remaining argument after its last `/`, or all of it if
/// there is no `/`.  Deliberately not the shell utility's semantics: no
/// trailing-slash trimming.
pub fn basename(out: &mut Vec<char>, cur: &mut Cursor, buf: &Vec<char>)
    requires
        old(cur).wf(buf@.len()),
    ensures
        final(cur).pos == old(cur).end,
        final(cur).end == old(cur).end,
        final(cur).file == old(cur).file,
        final(out)@ == old(out)@ + basename_seq(old(cur).remaining(buf@)),
{
    let t = cur.collect_text(buf);
    match rfind_exec(&t, '/') {
        Some(i) => {
            crate::text::append_range(out, &t, i + 1, t.len());
        },
        None => {
            text::append_text(out, &t);
        },
    }
}

/// The part of the remaining argument before its last `/`, or all of it
/// if there is no `/`.
pub fn dirname(out: &mut Vec<char>, cur: &mut Cursor, buf: &Vec<char>)
    requires
        old(cur).wf(buf@.len()),
    ensures
        final(cur).pos == old(cur).end,
        final(cur).end == old(cur).end,
        final(cur).file == old(cur).file,
        final(out)@ == old(out)@ + dirname_seq(old(cur).remaining(buf@)),
{
    let t = cur.collect_text(buf);
    match rfind_exec(&t, '/') {
        Some(i) => {
            crate::text::append_range(out, &t, 0, i);
        },
        None => {
            text::append_text(out, &t);
        },
    }
}

/// The part of the remaining argument after its last `.`, or empty text
/// if there is no `.`.
pub fn suffix(out: &mut Vec<char>, cur: &mut Cursor, buf: &Vec<char>)
    requires
        old(cur).wf(buf@.len()),
    ensures
        final(cur).pos == old(cur).end,
        final(cur).end == old(cur).end,
        final(cur).file == old(cur).file,
        final(out)@ == old(out)@ + suffix_seq(old(cur).remaining(buf@)),
{
    let t = cur.collect_text(buf);
    match rfind_exec(&t, '.') {
        Some(i) => {
            crate::text::append_range(out, &t, i + 1, t.len());
        },
        None => {
            assert(out@ =~= out@ + suffix_seq(t@));
        },
    }
}

/// The placeholder verbosity flag: always `'0'`, acknowledged as
/// incomplete in the dialect.
pub fn verbose(out: &mut Vec<char>)
    ensures
        final(out)@ == old(out)@ + seq!['0'],
{
    out.push('0');
}

/// The explicit signal for the declared-but-unimplemented builtins
/// (`expr`, `gsub`, `rep`, `sub`, `uncompress`, `rpmversion`, `trace`):
/// never a silent no-op.
pub fn not_implemented() -> (r: Result<(), MacroError>)
    ensures
        r matches Err(e) && e is Unimplemented,
{
    Err(MacroError::Unimplemented)
}

/// The first index at or after `pos` (up to `end`) holding `c`, or `end`
/// if there is none.
pub open spec fn find_from(buf: Seq<char>, pos: int, end: int, c: char) -> int
    decreases end - pos,
{
    if pos >= end {
        end
    } else if buf[pos] == c {
        pos
    } else {
        find_from(buf, pos + 1, end, c)
    }
}

/// `find_from` is exactly the first position holding `c`, or `end`.
pub proof fn lemma_find_from_at(buf: Seq<char>, pos: int, end: int, c: char, p: int)
    requires
        pos <= p <= end,
        forall|j: int| pos <= j < p ==> buf[j] != c,
        p < end ==> buf[p] == c,
    ensures
        find_from(buf, pos, end, c) == p,
    decreases p - pos,
{
    if pos < p {
        lemma_find_from_at(buf, pos + 1, end, c, p);
    }
}

/// The bound of `[from, to)` after cutting trailing whitespace.
pub open spec fn trim_back(buf: Seq<char>, from: int, to: int) -> int
    decreases to - from,
{
    if to <= from {
        from
    } else if text::is_space(buf[to - 1]) {
        trim_back(buf, from, to - 1)
    } else {
        to
    }
}

/// `trim_back` is exactly the position after the last non-whitespace
/// character, or `from`.
pub proof fn lemma_trim_back_at(buf: Seq<char>, from: int, to: int, b: int)
    requires
        from <= b <= to,
        forall|j: int| b <= j < to ==> text::is_space(buf[j]),
        b > from ==> !text::is_space(buf[b - 1]),
    ensures
        trim_back(buf, from, to) == b,
    decreases to - b,
{
    if b < to {
        lemma_trim_back_at(buf, from, to - 1, b);
    }
}

/// What a definition directive means, read from the cursor's remaining
/// window: the macro name (with a trailing `()` stripped), the offset and
/// length of the trimmed body span, and whether the `()` marker was
/// there.  Nothing if the window is all whitespace or the directive's
/// line has no space-separated second token.
pub open spec fn parse_define(buf: Seq<char>, pos: int, end: int) -> Option<
    (Seq<char>, int, int, bool),
> {
    let a = skip_ws(buf, pos, end);
    let k = line_end(buf, a, end);
    let i = find_from(buf, a, k, ' ');
    if a >= end || i >= k {
        None
    } else {
        let token = buf.subrange(a, i);
        let param = token.len() >= 2 && token[token.len() - 2] == '(' && token[token.len() - 1]
            == ')';
        let name = if param {
            token.subrange(0, token.len() - 2)
        } else {
            token
        };
        let b0 = skip_ws(buf, i + 1, k);
        let b1 = trim_back(buf, i + 1, k);
        let l = if b1 >= b0 {
            b1 - b0
        } else {
            0
        };
        Some((name, b0, l, param))
    }
}

/// Registers a user-defined macro: skips leading whitespace, reads one
/// line, splits it at the first space into name and body, strips a `()`
/// marker off the name, trims the body and registers it as a span into
/// the session buffer — the body text is never copied.
pub fn define(p: &mut Interp, cur: &mut Cursor, buf: &Vec<char>) -> (r: Result<(), MacroError>)
    requires
        old(p).inv(),
        old(cur).wf(buf@.len()),
    ensures
        final(p).inv(),
        final(cur).end == old(cur).end,
        final(cur).file == old(cur).file,
        final(cur).pos == after_line(
            buf@,
            skip_ws(buf@, old(cur).pos as int, old(cur).end as int),
            old(cur).end as int,
        ),
        final(p).diags == old(p).diags,
        final(p).depth == old(p).depth,
        final(p).depth_limit == old(p).depth_limit,
        forall|b: nat|
            old(p).macros.spans_ok(b) && buf@.len() <= b ==> final(p).macros.spans_ok(b),
        match parse_define(buf@, old(cur).pos as int, old(cur).end as int) {
            None => (r matches Err(e) && e is MalformedDirective)
                && final(p).macros == old(p).macros,
            Some((name, off, l, par)) => r is Ok && (final(p).macros.lookup_spec(name)
                matches Some(stack) && stack.len() >= 1 && (match old(p).macros.lookup_spec(name) {
                Some(s) => stack.drop_last() == s,
                None => stack.len() == 1,
            }) && (stack.last() matches MacroType::Runtime { file, offset, len, param }
                && file@ == old(cur).file@ && offset as int == off && len as int == l && param
                == par)) && (forall|n: Seq<char>|
                n != name ==> final(p).macros.lookup_spec(n) == old(p).macros.lookup_spec(n)),
        },
{
    let ghost pos_0 = cur.pos as int;
    let ghost end_0 = cur.end as int;
    while cur.pos < cur.end && text::is_space_exec(buf[cur.pos])
        invariant
            0 <= pos_0 <= cur.pos <= cur.end,
            cur.end == old(cur).end,
            cur.file == old(cur).file,
            cur.end <= buf@.len(),
            end_0 == cur.end as int,
            forall|j: int| pos_0 <= j < cur.pos ==> text::is_space(buf@[j]),
        decreases cur.end - cur.pos,
    {
        cur.pos = cur.pos + 1;
    }
    proof {
        lemma_skip_ws_at(buf@, pos_0, end_0, cur.pos as int);
    }
    let a = cur.pos;
    if a == cur.end {
        return Err(MacroError::MalformedDirective);
    }
    let mut k: usize = a;
    while k < cur.end && buf[k] != '\n'
        invariant
            a <= k <= cur.end,
            cur.end <= buf@.len(),
            forall|j: int| a <= j < k ==> buf@[j] != '\n',
        decreases cur.end - k,
    {
        k += 1;
    }
    proof {
        crate::cursor::lemma_line_end_at(buf@, a as int, end_0, k as int);
    }
    let mut i: usize = a;
    while i < k && buf[i] != ' '
        invariant
            a <= i <= k <= buf@.len(),
            forall|j: int| a <= j < i ==> buf@[j] != ' ',
        decreases k - i,
    {
        i += 1;
    }
    proof {
        lemma_find_from_at(buf@, a as int, k as int, ' ', i as int);
    }
    if k < cur.end {
        cur.pos = k + 1;
    } else {
        cur.pos = k;
    }
    if i == k {
        return Err(MacroError::MalformedDirective);
    }
    let param = i - a >= 2 && buf[i - 2] == '(' && buf[i - 1] == ')';
    let name_hi = if param {
        i - 2
    } else {
        i
    };
    let mut name: Vec<char> = Vec::new();
    text::append_range(&mut name, buf, a, name_hi);
    let mut b0: usize = i + 1;
    while b0 < k && text::is_space_exec(buf[b0])
        invariant
            i + 1 <= b0 <= k <= buf@.len(),
            forall|j: int| i + 1 <= j < b0 ==> text::is_space(buf@[j]),
        decreases k - b0,
    {
        b0 += 1;
    }
    proof {
        lemma_skip_ws_at(buf@, i as int + 1, k as int, b0 as int);
    }
    let mut b1: usize = k;
    while b1 > i + 1 && text::is_space_exec(buf[b1 - 1])
        invariant
            i + 1 <= b1 <= k <= buf@.len(),
            forall|j: int| b1 <= j < k ==> text::is_space(buf@[j]),
        decreases b1,
    {
        b1 -= 1;
    }
    proof {
        lemma_trim_back_at(buf@, i as int + 1, k as int, b1 as int);
    }
    let l = if b1 >= b0 {
        b1 - b0
    } else {
        0
    };
    let def = MacroType::Runtime { file: cur.file.clone(), offset: b0, len: l, param };
    let ghost gdef = def;
    let ghost gname = name@;
    let ghost reg0 = p.macros;
    proof {
        let token = buf@.subrange(a as int, i as int);
        assert(token.len() >= 2 ==> token[token.len() - 2] == buf@[i as int - 2]
            && token[token.len() - 1] == buf@[i as int - 1]);
        if param {
            assert(name@ =~= token.subrange(0, token.len() - 2));
        } else {
            assert(name@ =~= token);
        }
    }
    p.macros.define(name, def);
    proof {
        match reg0.lookup_spec(gname) {
            Some(s) => {
                assert(p.macros.lookup_spec(gname) == Some(s.push(gdef)));
                assert(s.push(gdef).drop_last() =~= s);
                assert(s.push(gdef).last() == gdef);
            },
            None => {
                assert(p.macros.lookup_spec(gname) == Some(seq![gdef]));
                assert(seq![gdef].last() == gdef);
            },
        }
        assert forall|b: nat| reg0.spans_ok(b) && buf@.len() <= b implies p.macros.spans_ok(
            b,
        ) by {
            assert(gdef.span_ok(b));
        }
    }
    Ok(())
}

/// `%global` behaves as `%define` does here: the scoping difference is
/// the expansion driver's business.
pub fn global(p: &mut Interp, cur: &mut Cursor, buf: &Vec<char>) -> (r: Result<(), MacroError>)
    requires
        old(p).inv(),
        old(cur).wf(buf@.len()),
    ensures
        final(p).inv(),
        final(cur).end == old(cur).end,
        final(cur).file == old(cur).file,
        final(cur).pos == after_line(
            buf@,
            skip_ws(buf@, old(cur).pos as int, old(cur).end as int),
            old(cur).end as int,
        ),
        final(p).diags == old(p).diags,
        final(p).depth == old(p).depth,
        final(p).depth_limit == old(p).depth_limit,
        forall|b: nat|
            old(p).macros.spans_ok(b) && buf@.len() <= b ==> final(p).macros.spans_ok(b),
        match parse_define(buf@, old(cur).pos as int, old(cur).end as int) {
            None => (r matches Err(e) && e is MalformedDirective)
                && final(p).macros == old(p).macros,
            Some((name, off, l, par)) => r is Ok && (final(p).macros.lookup_spec(name)
                matches Some(stack) && stack.len() >= 1 && (match old(p).macros.lookup_spec(name) {
                Some(s) => stack.drop_last() == s,
                None => stack.len() == 1,
            }) && (stack.last() matches MacroType::Runtime { file, offset, len, param }
                && file@ == old(cur).file@ && offset as int == off && len as int == l && param
                == par)) && (forall|n: Seq<char>|
                n != name ==> final(p).macros.lookup_spec(n) == old(p).macros.lookup_spec(n)),
        },
{
    define(p, cur, buf)
}

/// Reads the rest of the line as a name and removes that name's whole
/// definition stack.
pub fn undefine(p: &mut Interp, cur: &mut Cursor, buf: &Vec<char>) -> (r: Result<(), MacroError>)
    requires
        old(p).inv(),
        old(cur).wf(buf@.len()),
    ensures
        final(p).inv(),
        final(cur).end == old(cur).end,
        final(cur).file == old(cur).file,
        final(p).diags == old(p).diags,
        final(p).depth == old(p).depth,
        final(p).depth_limit == old(p).depth_limit,
        forall|b: nat| old(p).macros.spans_ok(b) ==> final(p).macros.spans_ok(b),
        old(cur).pos == old(cur).end ==> (r matches Err(e) && e is MalformedDirective)
            && final(p).macros == old(p).macros && final(cur).pos == old(cur).pos,
        old(cur).pos < old(cur).end ==> r is Ok && final(cur).pos == after_line(
            buf@,
            old(cur).pos as int,
            old(cur).end as int,
        ) && final(p).macros.lookup_spec(
            buf@.subrange(
                old(cur).pos as int,
                line_end(buf@, old(cur).pos as int, old(cur).end as int),
            ),
        ) is None && (forall|n: Seq<char>|
            n != buf@.subrange(
                old(cur).pos as int,
                line_end(buf@, old(cur).pos as int, old(cur).end as int),
            ) ==> final(p).macros.lookup_spec(n) == old(p).macros.lookup_spec(n)),
{
    match cur.read_til_eol(buf) {
        None => Err(MacroError::MalformedDirective),
        Some(name) => {
            p.macros.undefine(&name);
            Ok(())
        },
    }
}

/// Emits the raw stored body of the named macro's most recent definition
/// — re-sliced from the session buffer, not re-expanded — or the fixed
/// placeholder for a builtin.
pub fn macrobody(p: &Interp, out: &mut Vec<char>, cur: &mut Cursor, buf: &Vec<char>) -> (r:
    Result<(), MacroError>)
    requires
        p.inv(),
        old(cur).wf(buf@.len()),
        p.macros.spans_ok(buf@.len()),
    ensures
        final(cur).pos == old(cur).end,
        final(cur).end == old(cur).end,
        final(cur).file == old(cur).file,
        match p.macros.lookup_spec(old(cur).remaining(buf@)) {
            None => (r matches Err(e) && (e matches MacroError::MacroNotFound(nm)
                && nm@ == old(cur).remaining(buf@))) && final(out)@ == old(out)@,
            Some(stack) => r is Ok && (match stack.last() {
                MacroType::Internal(_) => final(out)@ == old(out)@ + "<builtin>"@,
                MacroType::Runtime { offset, len, .. } => final(out)@ == old(out)@ + buf@.subrange(
                    offset as int,
                    offset as int + len as int,
                ),
            }),
        },
{
    let name = cur.collect_text(buf);
    proof {
        if p.macros.lookup_spec(name@) is Some {
            p.macros.lemma_lookup_spans(name@, buf@.len());
        }
    }
    match p.macros.lookup(&name) {
        None => Err(MacroError::MacroNotFound(name)),
        Some(m) => match m {
            MacroType::Internal(_) => {
                text::append_literal(out, "<builtin>");
                Ok(())
            },
            MacroType::Runtime { offset, len, .. } => {
                proof {
                    let stack = p.macros.lookup_spec(old(cur).remaining(buf@)).unwrap();
                    assert(stack[stack.len() - 1].span_ok(buf@.len()));
                    assert(stack.last() == stack[stack.len() - 1]);
                }
                let off = *offset;
                let l = *len;
                let bl = buf.len();
                assert(off + l <= bl);
                text::append_range(out, buf, off, off + l);
                Ok(())
            },
        },
    }
}

/// How a macro name resolves against the registry.
pub enum Resolution {
    /// The name's most recent definition is a builtin catalog entry.
    Builtin(BuiltinId),
    /// The name's most recent definition is user-defined text: a bounded
    /// view over its stored body, for the driver to re-enter expansion
    /// on.
    Body(Cursor),
}

/// Resolves a macro name to its most recent definition, as the expansion
/// driver does before dispatching: a miss is the macro-not-found error
/// carrying the name.
pub fn resolve(p: &Interp, name: &Vec<char>, buf: &Vec<char>) -> (r: Result<
    Resolution,
    MacroError,
>)
    requires
        p.inv(),
        p.macros.spans_ok(buf@.len()),
    ensures
        match p.macros.lookup_spec(name@) {
            None => r matches Err(e) && (e matches MacroError::MacroNotFound(nm) && nm@ == name@),
            Some(stack) => r is Ok && (match stack.last() {
                MacroType::Internal(id) => r matches Ok(res) && (res matches Resolution::Builtin(b)
                    && b == id),
                MacroType::Runtime { file, offset, len, .. } => r matches Ok(res) && (res
                    matches Resolution::Body(c) && c.pos == offset && c.end == offset + len
                    && c.file@ == file@ && c.wf(buf@.len())),
            }),
        },
{
    proof {
        if p.macros.lookup_spec(name@) is Some {
            p.macros.lemma_lookup_spans(name@, buf@.len());
        }
    }
    match p.macros.lookup(name) {
        None => {
            let mut nm: Vec<char> = Vec::new();
            text::append_text(&mut nm, name);
            assert(nm@ =~= name@);
            Err(MacroError::MacroNotFound(nm))
        },
        Some(m) => match m {
            MacroType::Internal(id) => Ok(Resolution::Builtin(*id)),
            MacroType::Runtime { file, offset, len, .. } => {
                proof {
                    let stack = p.macros.lookup_spec(name@).unwrap();
                    assert(stack[stack.len() - 1].span_ok(buf@.len()));
                    assert(stack.last() == stack[stack.len() - 1]);
                }
                let bl = buf.len();
                assert(*offset + *len <= bl);
                Ok(Resolution::Body(Cursor { file: file.clone(), pos: *offset, end: *offset + *len }))
            },
        },
    }
}

/// An environment variable as the driver found it.
pub enum EnvValue {
    /// The variable is not set.
    Missing,
    /// The variable is set to this text.
    Text(Vec<char>),
    /// The variable is set but its value is not valid text.
    NonText,
}

/// What the scripting bridge came back with.
pub enum ScriptOutcome {
    /// The script ran and captured this output.
    Output(Vec<char>),
    /// The script failed.
    Failed,
}

/// `%expand`: hands the driver a bounded view over the remaining
/// argument to re-enter expansion on.  The view carries no stream source,
/// so the nested expansion can never read past the argument.
pub fn expand(cur: &Cursor, buf: &Vec<char>) -> (r: Request)
    requires
        cur.wf(buf@.len()),
    ensures
        r matches Request::Expand { view } && view.pos == cur.pos && view.end == cur.end
            && view.file@ == cur.file@ && view.wf(buf@.len()),
{
    let view = match cur.range(cur.pos, cur.end) {
        Ok(v) => v,
        Err(_) => {
            proof {
                assert(false);
            }
            Cursor { file: String::new(), pos: 0, end: 0 }
        },
    };
    Request::Expand { view }
}

/// `%S`: asks the driver to expand the fixed `%SOURCE` macro text, then
/// pass the remaining raw characters through unchanged after it.
pub fn source_tag(cur: &mut Cursor, buf: &Vec<char>) -> (r: Request)
    requires
        old(cur).wf(buf@.len()),
    ensures
        final(cur).pos == old(cur).end,
        final(cur).end == old(cur).end,
        final(cur).file == old(cur).file,
        r matches Request::ExpandThenAppend { text, rest } && text@ == "%SOURCE"@
            && rest@ == old(cur).remaining(buf@),
{
    let text = text::str_to_text("%SOURCE");
    let rest = cur.collect_text(buf);
    Request::ExpandThenAppend { text, rest }
}

/// `%P`: asks the driver to expand the fixed `%PATCH` macro text, then
/// pass the remaining raw characters through unchanged after it.
pub fn patch_tag(cur: &mut Cursor, buf: &Vec<char>) -> (r: Request)
    requires
        old(cur).wf(buf@.len()),
    ensures
        final(cur).pos == old(cur).end,
        final(cur).end == old(cur).end,
        final(cur).file == old(cur).file,
        r matches Request::ExpandThenAppend { text, rest } && text@ == "%PATCH"@
            && rest@ == old(cur).remaining(buf@),
{
    let text = text::str_to_text("%PATCH");
    let rest = cur.collect_text(buf);
    Request::ExpandThenAppend { text, rest }
}

/// `%getenv`: collects the variable name for the driver to look up.
pub fn getenv(cur: &mut Cursor, buf: &Vec<char>) -> (r: Request)
    requires
        old(cur).wf(buf@.len()),
    ensures
        final(cur).pos == old(cur).end,
        final(cur).end == old(cur).end,
        final(cur).file == old(cur).file,
        r matches Request::Env { name } && name@ == old(cur).remaining(buf@),
{
    let name = cur.collect_text(buf);
    Request::Env { name }
}

/// `%getenv`, completed: the value if the variable is set, nothing if it
/// is unset, and a hard failure — never a silent empty — if it is set
/// but not valid text.
pub fn getenv_result(out: &mut Vec<char>, v: &EnvValue) -> (r: Result<(), MacroError>)
    ensures
        match v {
            EnvValue::Text(t) => r is Ok && final(out)@ == old(out)@ + t@,
            EnvValue::Missing => r is Ok && final(out)@ == old(out)@,
            EnvValue::NonText => (r matches Err(e) && e is NonTextEnvironmentValue) && final(out)@
                == old(out)@,
        },
{
    match v {
        EnvValue::Text(t) => {
            text::append_text(out, t);
            Ok(())
        },
        EnvValue::Missing => Ok(()),
        EnvValue::NonText => Err(MacroError::NonTextEnvironmentValue),
    }
}

/// `%getconfdir`, completed: the configuration-directory variable's
/// value, the fixed system default if it is unset, and a hard failure if
/// it is set but not valid text.
pub fn getconfdir_result(out: &mut Vec<char>, v: &EnvValue) -> (r: Result<(), MacroError>)
    ensures
        match v {
            EnvValue::Text(t) => r is Ok && final(out)@ == old(out)@ + t@,
            EnvValue::Missing => r is Ok && final(out)@ == old(out)@ + "/usr/lib/rpm"@,
            EnvValue::NonText => (r matches Err(e) && e is NonTextEnvironmentValue) && final(out)@
                == old(out)@,
        },
{
    match v {
        EnvValue::Text(t) => {
            text::append_text(out, t);
            Ok(())
        },
        EnvValue::Missing => {
            text::append_literal(out, "/usr/lib/rpm");
            Ok(())
        },
        EnvValue::NonText => Err(MacroError::NonTextEnvironmentValue),
    }
}

/// `%exists`: collects the path for the driver to check.
pub fn exists_check(cur: &mut Cursor, buf: &Vec<char>) -> (r: Request)
    requires
        old(cur).wf(buf@.len()),
    ensures
        final(cur).pos == old(cur).end,
        final(cur).end == old(cur).end,
        final(cur).file == old(cur).file,
        r matches Request::ExistsCheck { path } && path@ == old(cur).remaining(buf@),
{
    let path = cur.collect_text(buf);
    Request::ExistsCheck { path }
}

/// `%exists`, completed: `'1'` for a present path, `'0'` otherwise.
pub fn exists_result(out: &mut Vec<char>, present: bool)
    ensures
        final(out)@ == old(out)@ + seq![if present { '1' } else { '0' }],
{
    if present {
        out.push('1');
    } else {
        out.push('0');
    }
}

/// `%lua`: collects the script text for the scripting bridge.  The
/// bridge gets the interpreter state by exclusive borrow, runs one
/// script, and returns; its captured output comes back through
/// `lua_result`.
pub fn lua(cur: &mut Cursor, buf: &Vec<char>) -> (r: Request)
    requires
        old(cur).wf(buf@.len()),
    ensures
        final(cur).pos == old(cur).end,
        final(cur).end == old(cur).end,
        final(cur).file == old(cur).file,
        r matches Request::Script { script } && script@ == old(cur).remaining(buf@),
{
    let script = cur.collect_text(buf);
    Request::Script { script }
}

/// `%lua`, completed: the captured script output is appended; a bridge
/// failure propagates as a script failure.
pub fn lua_result(out: &mut Vec<char>, outcome: &ScriptOutcome) -> (r: Result<(), MacroError>)
    ensures
        match outcome {
            ScriptOutcome::Output(t) => r is Ok && final(out)@ == old(out)@ + t@,
            ScriptOutcome::Failed => (r matches Err(e) && e is ScriptFailure)
                && final(out)@ == old(out)@,
        },
{
    match outcome {
        ScriptOutcome::Output(t) => {
            text::append_text(out, t);
            Ok(())
        },
        ScriptOutcome::Failed => Err(MacroError::ScriptFailure),
    }
}

/// `%load`: collects the path of a macro file for the external loader.
pub fn load(cur: &mut Cursor, buf: &Vec<char>) -> (r: Request)
    requires
        old(cur).wf(buf@.len()),
    ensures
        final(cur).pos == old(cur).end,
        final(cur).end == old(cur).end,
        final(cur).file == old(cur).file,
        r matches Request::Load { path } && path@ == old(cur).remaining(buf@),
{
    let path = cur.collect_text(buf);
    Request::Load { path }
}

/// `%echo`: the collected argument goes to the diagnostic log at
/// informational severity; no output text is produced.
pub fn echo(p: &mut Interp, cur: &mut Cursor, buf: &Vec<char>)
    requires
        old(cur).wf(buf@.len()),
    ensures
        final(cur).pos == old(cur).end,
        final(cur).end == old(cur).end,
        final(cur).file == old(cur).file,
        final(p).macros == old(p).macros,
        final(p).depth == old(p).depth,
        final(p).depth_limit == old(p).depth_limit,
        final(p).diags@.len() == old(p).diags@.len() + 1,
        final(p).diags@.last().level == Severity::Info,
        final(p).diags@.last().text@ == old(cur).remaining(buf@),
        forall|j: int| 0 <= j < old(p).diags@.len() ==> final(p).diags@[j] == old(p).diags@[j],
{
    let t = cur.collect_text(buf);
    p.diag(Severity::Info, t);
}

/// `%warn`: as `%echo`, at warning severity.
pub fn warn(p: &mut Interp, cur: &mut Cursor, buf: &Vec<char>)
    requires
        old(cur).wf(buf@.len()),
    ensures
        final(cur).pos == old(cur).end,
        final(cur).end == old(cur).end,
        final(cur).file == old(cur).file,
        final(p).macros == old(p).macros,
        final(p).depth == old(p).depth,
        final(p).depth_limit == old(p).depth_limit,
        final(p).diags@.len() == old(p).diags@.len() + 1,
        final(p).diags@.last().level == Severity::Warning,
        final(p).diags@.last().text@ == old(cur).remaining(buf@),
        forall|j: int| 0 <= j < old(p).diags@.len() ==> final(p).diags@[j] == old(p).diags@[j],
{
    let t = cur.collect_text(buf);
    p.diag(Severity::Warning, t);
}

/// `%error`: as `%echo`, at error severity.
pub fn error(p: &mut Interp, cur: &mut Cursor, buf: &Vec<char>)
    requires
        old(cur).wf(buf@.len()),
    ensures
        final(cur).pos == old(cur).end,
        final(cur).end == old(cur).end,
        final(cur).file == old(cur).file,
        final(p).macros == old(p).macros,
        final(p).depth == old(p).depth,
        final(p).depth_limit == old(p).depth_limit,
        final(p).diags@.len() == old(p).diags@.len() + 1,
        final(p).diags@.last().level == Severity::Error,
        final(p).diags@.last().text@ == old(cur).remaining(buf@),
        forall|j: int| 0 <= j < old(p).diags@.len() ==> final(p).diags@[j] == old(p).diags@[j],
{
    let t = cur.collect_text(buf);
    p.diag(Severity::Error, t);
}

/// Relies on num_cpus::get: the number of available logical CPUs of the
/// current system, which its documentation promises is at least 1.  The
/// count is the machine's, so nothing more is stated.
#[verifier::external_body]
fn ncpus() -> (r: usize)
    ensures
        r >= 1,
{
    num_cpus::get()
}

/// `%getncpus`: emits the logical CPU count as decimal text; unexpected
/// trailing arguments draw a warning diagnostic carrying them, nothing
/// fatal.
pub fn getncpus(p: &mut Interp, out: &mut Vec<char>, cur: &mut Cursor, buf: &Vec<char>)
    requires
        old(cur).wf(buf@.len()),
    ensures
        final(cur).pos == old(cur).end,
        final(cur).end == old(cur).end,
        final(cur).file == old(cur).file,
        final(p).macros == old(p).macros,
        final(p).depth == old(p).depth,
        final(p).depth_limit == old(p).depth_limit,
        exists|n: nat| n >= 1 && final(out)@ == old(out)@ + text::dec_of(n),
        old(cur).pos == old(cur).end ==> final(p).diags == old(p).diags,
        old(cur).pos < old(cur).end ==> final(p).diags@.len() == old(p).diags@.len() + 1
            && final(p).diags@.last().level == Severity::Warning
            && final(p).diags@.last().text@ == old(cur).remaining(buf@),
{
    if cur.pos < cur.end {
        let args = cur.collect_text(buf);
        p.diag(Severity::Warning, args);
    } else {
        cur.consume();
    }
    let n = ncpus();
    text::push_decimal(out, n);
    proof {
        let m = n as nat;
        assert(m >= 1 && out@ == old(out)@ + text::dec_of(m));
    }
}

/// Whether a URL scheme is one the dialect turns into a bare path.
pub open spec fn scheme_known(s: Seq<char>) -> bool {
    s == "https"@ || s == "http"@ || s == "hkp"@ || s == "file"@ || s == "ftp"@
}

/// Whether the text parses as a URL.
pub uninterp spec fn url_parses(s: Seq<char>) -> bool;

/// The scheme component of a text that parses as a URL.
pub uninterp spec fn url_scheme_of(s: Seq<char>) -> Seq<char>;

/// The path component of a text that parses as a URL.
pub uninterp spec fn url_path_of(s: Seq<char>) -> Seq<char>;

/// What `%url2path` emits: the URL's path for a parseable URL with a
/// known scheme, the argument unchanged otherwise.
pub open spec fn url2path_seq(s: Seq<char>) -> Seq<char> {
    if url_parses(s) && scheme_known(url_scheme_of(s)) {
        url_path_of(s)
    } else {
        s
    }
}

/// Relies on url::Url::parse, url::Url::scheme and url::Url::path:
/// whether a text parses as a URL, and the scheme and path of one that
/// does, depend on the text alone.
#[verifier::external_body]
fn parse_url_parts(v: &Vec<char>) -> (r: Option<(Vec<char>, Vec<char>)>)
    ensures
        r is Some <==> url_parses(v@),
        r matches Some(p) ==> p.0@ == url_scheme_of(v@) && p.1@ == url_path_of(v@),
{
    let s: String = v.iter().collect();
    match url::Url::parse(&s) {
        Ok(u) => Some((u.scheme().chars().collect(), u.path().chars().collect())),
        Err(_) => None,
    }
}

/// `%url2path`: for a URL with scheme `https`, `http`, `hkp`, `file` or
/// `ftp`, only the URL's path component; anything else — an unknown
/// scheme or unparseable input — passes through unchanged.
pub fn url2path(out: &mut Vec<char>, cur: &mut Cursor, buf: &Vec<char>)
    requires
        old(cur).wf(buf@.len()),
    ensures
        final(cur).pos == old(cur).end,
        final(cur).end == old(cur).end,
        final(cur).file == old(cur).file,
        final(out)@ == old(out)@ + url2path_seq(old(cur).remaining(buf@)),
{
    let t = cur.collect_text(buf);
    match parse_url_parts(&t) {
        Some(parts) => {
            let (scheme, path) = parts;
            let known = text::text_eq(&scheme, &text::str_to_text("https")) || text::text_eq(
                &scheme,
                &text::str_to_text("http"),
            ) || text::text_eq(&scheme, &text::str_to_text("hkp")) || text::text_eq(
                &scheme,
                &text::str_to_text("file"),
            ) || text::text_eq(&scheme, &text::str_to_text("ftp"));
            if known {
                text::append_text(out, &path);
            } else {
                text::append_text(out, &t);
            }
        },
        None => {
            text::append_text(out, &t);
        },
    }
}

/// `%u2p`: the short alias of `%url2path`.
pub fn u2p(out: &mut Vec<char>, cur: &mut Cursor, buf: &Vec<char>)
    requires
        old(cur).wf(buf@.len()),
    ensures
        final(cur).pos == old(cur).end,
        final(cur).end == old(cur).end,
        final(cur).file == old(cur).file,
        final(out)@ == old(out)@ + url2path_seq(old(cur).remaining(buf@)),
{
    url2path(out, cur, buf)
}


/// How many line feeds `[from, to)` of the buffer holds.
pub open spec fn count_nl(buf: Seq<char>, from: int, to: int) -> int
    decreases to - from,
{
    if to <= from {
        0
    } else {
        (if buf[from] == '\n' {
            1int
        } else {
            0int
        }) + count_nl(buf, from + 1, to)
    }
}

/// Extending the counted range by one position adds that position's
/// count.
proof fn lemma_count_nl_snoc(buf: Seq<char>, from: int, to: int)
    requires
        from <= to,
    ensures
        count_nl(buf, from, to + 1) == count_nl(buf, from, to) + (if buf[to] == '\n' {
            1int
        } else {
            0int
        }),
    decreases to - from,
{
    if from < to {
        lemma_count_nl_snoc(buf, from + 1, to);
        assert(count_nl(buf, from, to + 1) == (if buf[from] == '\n' {
            1int
        } else {
            0int
        }) + count_nl(buf, from + 1, to + 1));
    } else {
        assert(count_nl(buf, to + 1, to + 1) == 0);
    }
}

/// The count never exceeds the range's width.
proof fn lemma_count_nl_bound(buf: Seq<char>, from: int, to: int)
    requires
        from <= to,
    ensures
        0 <= count_nl(buf, from, to) <= to - from,
    decreases to - from,
{
    if from < to {
        lemma_count_nl_bound(buf, from + 1, to);
    }
}

/// The introspection line `%dump` prints for one registry entry: source
/// coordinates computed from the definition's buffer offset — or the
/// internal placeholder for a builtin — then the name, a parameter
/// marker, and the raw body.
pub open spec fn dump_line(e: crate::registry::Entry, buf: Seq<char>) -> Seq<char> {
    match e.defs@.last() {
        MacroType::Internal(_) => "[<internal>]\t%"@ + e.name@ + "\t<builtin>\n"@,
        MacroType::Runtime { file, offset, len, param } => {
            let line_no = count_nl(buf, 0, offset as int) + 1;
            let fnl = find_from(buf, 0, offset as int, '\n');
            let col = offset as int - (if fnl < offset as int {
                fnl
            } else {
                0
            });
            "["@ + file@ + ":"@ + text::dec_of(line_no as nat) + ":"@ + text::dec_of(col as nat)
                + "]\t%"@ + e.name@ + (if param {
                "{}"@
            } else {
                Seq::<char>::empty()
            }) + "\t"@ + buf.subrange(offset as int, offset as int + len as int) + "\n"@
        },
    }
}

/// The whole `%dump` report, one line per registered name, in registry
/// order.
pub open spec fn dump_lines(entries: Seq<crate::registry::Entry>, i: int, buf: Seq<char>) -> Seq<
    char,
>
    decreases entries.len() - i,
{
    if i < 0 || i >= entries.len() {
        Seq::empty()
    } else {
        dump_line(entries[i], buf) + dump_lines(entries, i + 1, buf)
    }
}

/// One formatted introspection line.
fn dump_one(e: &crate::registry::Entry, buf: &Vec<char>) -> (line: Vec<char>)
    requires
        e.defs@.len() >= 1,
        e.defs@.last().span_ok(buf@.len()),
        buf@.len() < usize::MAX,
    ensures
        line@ == dump_line(*e, buf@),
{
    let mut line: Vec<char> = Vec::new();
    let m = &e.defs[e.defs.len() - 1];
    match m {
        MacroType::Internal(_) => {
            text::append_literal(&mut line, "[<internal>]\t%");
            text::append_text(&mut line, &e.name);
            text::append_literal(&mut line, "\t<builtin>\n");
            assert(line@ =~= dump_line(*e, buf@));
        },
        MacroType::Runtime { file, offset, len, param } => {
            let off = *offset;
            let l = *len;
            let bl = buf.len();
            assert(off + l <= bl);
            let mut cnt: usize = 0;
            let mut i: usize = 0;
            while i < off
                invariant
                    i <= off <= buf@.len(),
                    cnt == count_nl(buf@, 0, i as int),
                    cnt <= i,
                decreases off - i,
            {
                proof {
                    lemma_count_nl_snoc(buf@, 0, i as int);
                }
                if buf[i] == '\n' {
                    cnt += 1;
                }
                i += 1;
            }
            let mut j: usize = 0;
            while j < off && buf[j] != '\n'
                invariant
                    j <= off <= buf@.len(),
                    forall|q: int| 0 <= q < j ==> buf@[q] != '\n',
                decreases off - j,
            {
                j += 1;
            }
            proof {
                lemma_find_from_at(buf@, 0, off as int, '\n', j as int);
                lemma_count_nl_bound(buf@, 0, off as int);
            }
            let col = if j < off {
                off - j
            } else {
                off
            };
            text::append_literal(&mut line, "[");
            text::append_literal(&mut line, file.as_str());
            text::append_literal(&mut line, ":");
            text::push_decimal(&mut line, cnt + 1);
            text::append_literal(&mut line, ":");
            text::push_decimal(&mut line, col);
            text::append_literal(&mut line, "]\t%");
            text::append_text(&mut line, &e.name);
            if *param {
                text::append_literal(&mut line, "{}");
            }
            text::append_literal(&mut line, "\t");
            text::append_range(&mut line, buf, off, off + l);
            text::append_literal(&mut line, "\n");
            assert(line@ =~= dump_line(*e, buf@));
        },
    }
    line
}

/// `%dump`: formats one introspection line per registered macro for the
/// driver to write to standard output; unexpected arguments draw a
/// warning diagnostic, nothing fatal.
pub fn dump(p: &mut Interp, cur: &mut Cursor, buf: &Vec<char>) -> (r: Request)
    requires
        old(p).inv(),
        old(cur).wf(buf@.len()),
        old(p).macros.spans_ok(buf@.len()),
        buf@.len() < usize::MAX,
    ensures
        final(cur).pos == old(cur).end,
        final(cur).end == old(cur).end,
        final(cur).file == old(cur).file,
        final(p).macros == old(p).macros,
        final(p).depth == old(p).depth,
        final(p).depth_limit == old(p).depth_limit,
        old(cur).pos == old(cur).end ==> final(p).diags == old(p).diags,
        old(cur).pos < old(cur).end ==> final(p).diags@.len() == old(p).diags@.len() + 1
            && final(p).diags@.last().level == Severity::Warning
            && final(p).diags@.last().text@ == old(cur).remaining(buf@),
        r matches Request::WriteOut { lines } && lines@ == dump_lines(
            old(p).macros.entries@,
            0,
            buf@,
        ),
{
    if cur.pos < cur.end {
        let args = cur.collect_text(buf);
        p.diag(Severity::Warning, args);
    } else {
        cur.consume();
    }
    let mut lines: Vec<char> = Vec::new();
    let n = p.macros.num_entries();
    let mut i: usize = 0;
    while i < n
        invariant
            n == p.macros.entries@.len(),
            i <= n,
            p.macros == old(p).macros,
            old(p).inv(),
            old(p).macros.spans_ok(buf@.len()),
            buf@.len() < usize::MAX,
            lines@ + dump_lines(p.macros.entries@, i as int, buf@) == dump_lines(
                p.macros.entries@,
                0,
                buf@,
            ),
        decreases n - i,
    {
        proof {
            assert(p.macros.entries@[i as int].defs@.len() >= 1);
            let d = p.macros.entries@[i as int].defs@;
            assert(d[d.len() - 1].span_ok(buf@.len()));
            assert(d.last() == d[d.len() - 1]);
        }
        let e = &p.macros.entries[i];
        let one = dump_one(e, buf);
        text::append_text(&mut lines, &one);
        proof {
            assert(lines@ + dump_lines(p.macros.entries@, i as int + 1, buf@) =~= dump_lines(
                p.macros.entries@,
                0,
                buf@,
            ));
        }
        i += 1;
    }
    assert(lines@ =~= dump_lines(p.macros.entries@, 0, buf@));
    Request::WriteOut { lines }
}

/// The name under which each builtin catalog entry is registered.
pub open spec fn builtin_name(id: BuiltinId) -> Seq<char> {
    match id {
        BuiltinId::Define => "define"@,
        BuiltinId::Global => "global"@,
        BuiltinId::Undefine => "undefine"@,
        BuiltinId::Load => "load"@,
        BuiltinId::Expand => "expand"@,
        BuiltinId::Expr => "expr"@,
        BuiltinId::Lua => "lua"@,
        BuiltinId::Macrobody => "macrobody"@,
        BuiltinId::Quote => "quote"@,
        BuiltinId::Gsub => "gsub"@,
        BuiltinId::Len => "len"@,
        BuiltinId::Lower => "lower"@,
        BuiltinId::Rep => "rep"@,
        BuiltinId::Reverse => "reverse"@,
        BuiltinId::Sub => "sub"@,
        BuiltinId::Upper => "upper"@,
        BuiltinId::Shescape => "shescape"@,
        BuiltinId::Shrink => "shrink"@,
        BuiltinId::Basename => "basename"@,
        BuiltinId::Dirname => "dirname"@,
        BuiltinId::Exists => "exists"@,
        BuiltinId::Suffix => "suffix"@,
        BuiltinId::Url2path => "url2path"@,
        BuiltinId::U2p => "u2p"@,
        BuiltinId::Uncompress => "uncompress"@,
        BuiltinId::Getncpus => "getncpus"@,
        BuiltinId::Getconfdir => "getconfdir"@,
        BuiltinId::Getenv => "getenv"@,
        BuiltinId::Rpmversion => "rpmversion"@,
        BuiltinId::Echo => "echo"@,
        BuiltinId::Warn => "warn"@,
        BuiltinId::Error => "error"@,
        BuiltinId::Verbose => "verbose"@,
        BuiltinId::SourceNum => "S"@,
        BuiltinId::PatchNum => "P"@,
        BuiltinId::Trace => "trace"@,
        BuiltinId::Dump => "dump"@,
    }
}

/// Merges the process-wide builtin table into a fresh registry: every
/// catalog entry under its macro name, each as a single-element stack
/// that user definitions may shadow — and that an undefine removes
/// builtin and all.
#[verifier::rlimit(100)]
#[verifier::spinoff_prover]
pub fn seed(p: &mut Interp)
    requires
        old(p).inv(),
        forall|n: Seq<char>| old(p).macros.lookup_spec(n) is None,
        forall|b: nat| old(p).macros.spans_ok(b),
    ensures
        final(p).inv(),
        final(p).diags == old(p).diags,
        final(p).depth == old(p).depth,
        final(p).depth_limit == old(p).depth_limit,
        forall|b: nat| final(p).macros.spans_ok(b),
        forall|id: BuiltinId| #[trigger] final(p).macros.lookup_spec(builtin_name(id)) == Some(
            seq![MacroType::Internal(id)],
        ),
        forall|n: Seq<char>|
            (forall|id: BuiltinId| builtin_name(id) != n) ==> final(p).macros.lookup_spec(
                n,
            ) is None,
{
    let ghost g0 = p.macros;
    p.macros.define(text::str_to_text("define"), MacroType::Internal(BuiltinId::Define));
    let ghost g1 = p.macros;
    p.macros.define(text::str_to_text("global"), MacroType::Internal(BuiltinId::Global));
    let ghost g2 = p.macros;
    p.macros.define(text::str_to_text("undefine"), MacroType::Internal(BuiltinId::Undefine));
    let ghost g3 = p.macros;
    p.macros.define(text::str_to_text("load"), MacroType::Internal(BuiltinId::Load));
    let ghost g4 = p.macros;
    p.macros.define(text::str_to_text("expand"), MacroType::Internal(BuiltinId::Expand));
    let ghost g5 = p.macros;
    p.macros.define(text::str_to_text("expr"), MacroType::Internal(BuiltinId::Expr));
    let ghost g6 = p.macros;
    p.macros.define(text::str_to_text("lua"), MacroType::Internal(BuiltinId::Lua));
    let ghost g7 = p.macros;
    p.macros.define(text::str_to_text("macrobody"), MacroType::Internal(BuiltinId::Macrobody));
    let ghost g8 = p.macros;
    p.macros.define(text::str_to_text("quote"), MacroType::Internal(BuiltinId::Quote));
    let ghost g9 = p.macros;
    p.macros.define(text::str_to_text("gsub"), MacroType::Internal(BuiltinId::Gsub));
    let ghost g10 = p.macros;
    p.macros.define(text::str_to_text("len"), MacroType::Internal(BuiltinId::Len));
    let ghost g11 = p.macros;
    p.macros.define(text::str_to_text("lower"), MacroType::Internal(BuiltinId::Lower));
    let ghost g12 = p.macros;
    p.macros.define(text::str_to_text("rep"), MacroType::Internal(BuiltinId::Rep));
    let ghost g13 = p.macros;
    p.macros.define(text::str_to_text("reverse"), MacroType::Internal(BuiltinId::Reverse));
    let ghost g14 = p.macros;
    p.macros.define(text::str_to_text("sub"), MacroType::Internal(BuiltinId::Sub));
    let ghost g15 = p.macros;
    p.macros.define(text::str_to_text("upper"), MacroType::Internal(BuiltinId::Upper));
    let ghost g16 = p.macros;
    p.macros.define(text::str_to_text("shescape"), MacroType::Internal(BuiltinId::Shescape));
    let ghost g17 = p.macros;
    p.macros.define(text::str_to_text("shrink"), MacroType::Internal(BuiltinId::Shrink));
    let ghost g18 = p.macros;
    p.macros.define(text::str_to_text("basename"), MacroType::Internal(BuiltinId::Basename));
    let ghost g19 = p.macros;
    p.macros.define(text::str_to_text("dirname"), MacroType::Internal(BuiltinId::Dirname));
    let ghost g20 = p.macros;
    p.macros.define(text::str_to_text("exists"), MacroType::Internal(BuiltinId::Exists));
    let ghost g21 = p.macros;
    p.macros.define(text::str_to_text("suffix"), MacroType::Internal(BuiltinId::Suffix));
    let ghost g22 = p.macros;
    p.macros.define(text::str_to_text("url2path"), MacroType::Internal(BuiltinId::Url2path));
    let ghost g23 = p.macros;
    p.macros.define(text::str_to_text("u2p"), MacroType::Internal(BuiltinId::U2p));
    let ghost g24 = p.macros;
    p.macros.define(text::str_to_text("uncompress"), MacroType::Internal(BuiltinId::Uncompress));
    let ghost g25 = p.macros;
    p.macros.define(text::str_to_text("getncpus"), MacroType::Internal(BuiltinId::Getncpus));
    let ghost g26 = p.macros;
    p.macros.define(text::str_to_text("getconfdir"), MacroType::Internal(BuiltinId::Getconfdir));
    let ghost g27 = p.macros;
    p.macros.define(text::str_to_text("getenv"), MacroType::Internal(BuiltinId::Getenv));
    let ghost g28 = p.macros;
    p.macros.define(text::str_to_text("rpmversion"), MacroType::Internal(BuiltinId::Rpmversion));
    let ghost g29 = p.macros;
    p.macros.define(text::str_to_text("echo"), MacroType::Internal(BuiltinId::Echo));
    let ghost g30 = p.macros;
    p.macros.define(text::str_to_text("warn"), MacroType::Internal(BuiltinId::Warn));
    let ghost g31 = p.macros;
    p.macros.define(text::str_to_text("error"), MacroType::Internal(BuiltinId::Error));
    let ghost g32 = p.macros;
    p.macros.define(text::str_to_text("verbose"), MacroType::Internal(BuiltinId::Verbose));
    let ghost g33 = p.macros;
    p.macros.define(text::str_to_text("S"), MacroType::Internal(BuiltinId::SourceNum));
    let ghost g34 = p.macros;
    p.macros.define(text::str_to_text("P"), MacroType::Internal(BuiltinId::PatchNum));
    let ghost g35 = p.macros;
    p.macros.define(text::str_to_text("trace"), MacroType::Internal(BuiltinId::Trace));
    let ghost g36 = p.macros;
    p.macros.define(text::str_to_text("dump"), MacroType::Internal(BuiltinId::Dump));
    let ghost g37 = p.macros;
    proof {
        reveal_strlit("define");
        reveal_strlit("global");
        reveal_strlit("undefine");
        reveal_strlit("load");
        reveal_strlit("expand");
        reveal_strlit("expr");
        reveal_strlit("lua");
        reveal_strlit("macrobody");
        reveal_strlit("quote");
        reveal_strlit("gsub");
        reveal_strlit("len");
        reveal_strlit("lower");
        reveal_strlit("rep");
        reveal_strlit("reverse");
        reveal_strlit("sub");
        reveal_strlit("upper");
        reveal_strlit("shescape");
        reveal_strlit("shrink");
        reveal_strlit("basename");
        reveal_strlit("dirname");
        reveal_strlit("exists");
        reveal_strlit("suffix");
        reveal_strlit("url2path");
        reveal_strlit("u2p");
        reveal_strlit("uncompress");
        reveal_strlit("getncpus");
        reveal_strlit("getconfdir");
        reveal_strlit("getenv");
        reveal_strlit("rpmversion");
        reveal_strlit("echo");
        reveal_strlit("warn");
        reveal_strlit("error");
        reveal_strlit("verbose");
        reveal_strlit("S");
        reveal_strlit("P");
        reveal_strlit("trace");
        reveal_strlit("dump");
        assert("define"@ =~= seq!['d', 'e', 'f', 'i', 'n', 'e']);
        assert("global"@ =~= seq!['g', 'l', 'o', 'b', 'a', 'l']);
        assert("undefine"@ =~= seq!['u', 'n', 'd', 'e', 'f', 'i', 'n', 'e']);
        assert("load"@ =~= seq!['l', 'o', 'a', 'd']);
        assert("expand"@ =~= seq!['e', 'x', 'p', 'a', 'n', 'd']);
        assert("expr"@ =~= seq!['e', 'x', 'p', 'r']);
        assert("lua"@ =~= seq!['l', 'u', 'a']);
        assert("macrobody"@ =~= seq!['m', 'a', 'c', 'r', 'o', 'b', 'o', 'd', 'y']);
        assert("quote"@ =~= seq!['q', 'u', 'o', 't', 'e']);
        assert("gsub"@ =~= seq!['g', 's', 'u', 'b']);
        assert("len"@ =~= seq!['l', 'e', 'n']);
        assert("lower"@ =~= seq!['l', 'o', 'w', 'e', 'r']);
        assert("rep"@ =~= seq!['r', 'e', 'p']);
        assert("reverse"@ =~= seq!['r', 'e', 'v', 'e', 'r', 's', 'e']);
        assert("sub"@ =~= seq!['s', 'u', 'b']);
        assert("upper"@ =~= seq!['u', 'p', 'p', 'e', 'r']);
        assert("shescape"@ =~= seq!['s', 'h', 'e', 's', 'c', 'a', 'p', 'e']);
        assert("shrink"@ =~= seq!['s', 'h', 'r', 'i', 'n', 'k']);
        assert("basename"@ =~= seq!['b', 'a', 's', 'e', 'n', 'a', 'm', 'e']);
        assert("dirname"@ =~= seq!['d', 'i', 'r', 'n', 'a', 'm', 'e']);
        assert("exists"@ =~= seq!['e', 'x', 'i', 's', 't', 's']);
        assert("suffix"@ =~= seq!['s', 'u', 'f', 'f', 'i', 'x']);
        assert("url2path"@ =~= seq!['u', 'r', 'l', '2', 'p', 'a', 't', 'h']);
        assert("u2p"@ =~= seq!['u', '2', 'p']);
        assert("uncompress"@ =~= seq!['u', 'n', 'c', 'o', 'm', 'p', 'r', 'e', 's', 's']);
        assert("getncpus"@ =~= seq!['g', 'e', 't', 'n', 'c', 'p', 'u', 's']);
        assert("getconfdir"@ =~= seq!['g', 'e', 't', 'c', 'o', 'n', 'f', 'd', 'i', 'r']);
        assert("getenv"@ =~= seq!['g', 'e', 't', 'e', 'n', 'v']);
        assert("rpmversion"@ =~= seq!['r', 'p', 'm', 'v', 'e', 'r', 's', 'i', 'o', 'n']);
        assert("echo"@ =~= seq!['e', 'c', 'h', 'o']);
        assert("warn"@ =~= seq!['w', 'a', 'r', 'n']);
        assert("error"@ =~= seq!['e', 'r', 'r', 'o', 'r']);
        assert("verbose"@ =~= seq!['v', 'e', 'r', 'b', 'o', 's', 'e']);
        assert("S"@ =~= seq!['S']);
        assert("P"@ =~= seq!['P']);
        assert("trace"@ =~= seq!['t', 'r', 'a', 'c', 'e']);
        assert("dump"@ =~= seq!['d', 'u', 'm', 'p']);
        assert("S"@[0] == 'S');
        assert("P"@[0] == 'P');
        assert forall|id: BuiltinId| #[trigger] p.macros.lookup_spec(builtin_name(id)) == Some(
            seq![MacroType::Internal(id)],
        ) by {
            match id {
            BuiltinId::Define => {
                assert(p.macros.lookup_spec("define"@) == Some(seq![MacroType::Internal(BuiltinId::Define)]));
            },
            BuiltinId::Global => {
                assert(p.macros.lookup_spec("global"@) == Some(seq![MacroType::Internal(BuiltinId::Global)]));
            },
            BuiltinId::Undefine => {
                assert(p.macros.lookup_spec("undefine"@) == Some(seq![MacroType::Internal(BuiltinId::Undefine)]));
            },
            BuiltinId::Load => {
                assert(p.macros.lookup_spec("load"@) == Some(seq![MacroType::Internal(BuiltinId::Load)]));
            },
            BuiltinId::Expand => {
                assert(p.macros.lookup_spec("expand"@) == Some(seq![MacroType::Internal(BuiltinId::Expand)]));
            },
            BuiltinId::Expr => {
                assert(p.macros.lookup_spec("expr"@) == Some(seq![MacroType::Internal(BuiltinId::Expr)]));
            },
            BuiltinId::Lua => {
                assert(p.macros.lookup_spec("lua"@) == Some(seq![MacroType::Internal(BuiltinId::Lua)]));
            },
            BuiltinId::Macrobody => {
                assert(p.macros.lookup_spec("macrobody"@) == Some(seq![MacroType::Internal(BuiltinId::Macrobody)]));
            },
            BuiltinId::Quote => {
                assert(p.macros.lookup_spec("quote"@) == Some(seq![MacroType::Internal(BuiltinId::Quote)]));
            },
            BuiltinId::Gsub => {
                assert(p.macros.lookup_spec("gsub"@) == Some(seq![MacroType::Internal(BuiltinId::Gsub)]));
            },
            BuiltinId::Len => {
                assert(p.macros.lookup_spec("len"@) == Some(seq![MacroType::Internal(BuiltinId::Len)]));
            },
            BuiltinId::Lower => {
                assert(p.macros.lookup_spec("lower"@) == Some(seq![MacroType::Internal(BuiltinId::Lower)]));
            },
            BuiltinId::Rep => {
                assert(p.macros.lookup_spec("rep"@) == Some(seq![MacroType::Internal(BuiltinId::Rep)]));
            },
            BuiltinId::Reverse => {
                assert(p.macros.lookup_spec("reverse"@) == Some(seq![MacroType::Internal(BuiltinId::Reverse)]));
            },
            BuiltinId::Sub => {
                assert(p.macros.lookup_spec("sub"@) == Some(seq![MacroType::Internal(BuiltinId::Sub)]));
            },
            BuiltinId::Upper => {
                assert(p.macros.lookup_spec("upper"@) == Some(seq![MacroType::Internal(BuiltinId::Upper)]));
            },
            BuiltinId::Shescape => {
                assert(p.macros.lookup_spec("shescape"@) == Some(seq![MacroType::Internal(BuiltinId::Shescape)]));
            },
            BuiltinId::Shrink => {
                assert(p.macros.lookup_spec("shrink"@) == Some(seq![MacroType::Internal(BuiltinId::Shrink)]));
            },
            BuiltinId::Basename => {
                assert(p.macros.lookup_spec("basename"@) == Some(seq![MacroType::Internal(BuiltinId::Basename)]));
            },
            BuiltinId::Dirname => {
                assert(p.macros.lookup_spec("dirname"@) == Some(seq![MacroType::Internal(BuiltinId::Dirname)]));
            },
            BuiltinId::Exists => {
                assert(p.macros.lookup_spec("exists"@) == Some(seq![MacroType::Internal(BuiltinId::Exists)]));
            },
            BuiltinId::Suffix => {
                assert(p.macros.lookup_spec("suffix"@) == Some(seq![MacroType::Internal(BuiltinId::Suffix)]));
            },
            BuiltinId::Url2path => {
                assert(p.macros.lookup_spec("url2path"@) == Some(seq![MacroType::Internal(BuiltinId::Url2path)]));
            },
            BuiltinId::U2p => {
                assert(p.macros.lookup_spec("u2p"@) == Some(seq![MacroType::Internal(BuiltinId::U2p)]));
            },
            BuiltinId::Uncompress => {
                assert(p.macros.lookup_spec("uncompress"@) == Some(seq![MacroType::Internal(BuiltinId::Uncompress)]));
            },
            BuiltinId::Getncpus => {
                assert(p.macros.lookup_spec("getncpus"@) == Some(seq![MacroType::Internal(BuiltinId::Getncpus)]));
            },
            BuiltinId::Getconfdir => {
                assert(p.macros.lookup_spec("getconfdir"@) == Some(seq![MacroType::Internal(BuiltinId::Getconfdir)]));
            },
            BuiltinId::Getenv => {
                assert(p.macros.lookup_spec("getenv"@) == Some(seq![MacroType::Internal(BuiltinId::Getenv)]));
            },
            BuiltinId::Rpmversion => {
                assert(p.macros.lookup_spec("rpmversion"@) == Some(seq![MacroType::Internal(BuiltinId::Rpmversion)]));
            },
            BuiltinId::Echo => {
                assert(p.macros.lookup_spec("echo"@) == Some(seq![MacroType::Internal(BuiltinId::Echo)]));
            },
            BuiltinId::Warn => {
                assert(p.macros.lookup_spec("warn"@) == Some(seq![MacroType::Internal(BuiltinId::Warn)]));
            },
            BuiltinId::Error => {
                assert(p.macros.lookup_spec("error"@) == Some(seq![MacroType::Internal(BuiltinId::Error)]));
            },
            BuiltinId::Verbose => {
                assert(p.macros.lookup_spec("verbose"@) == Some(seq![MacroType::Internal(BuiltinId::Verbose)]));
            },
            BuiltinId::SourceNum => {
                assert(p.macros.lookup_spec("S"@) == Some(seq![MacroType::Internal(BuiltinId::SourceNum)]));
            },
            BuiltinId::PatchNum => {
                assert(p.macros.lookup_spec("P"@) == Some(seq![MacroType::Internal(BuiltinId::PatchNum)]));
            },
            BuiltinId::Trace => {
                assert(p.macros.lookup_spec("trace"@) == Some(seq![MacroType::Internal(BuiltinId::Trace)]));
            },
            BuiltinId::Dump => {
                assert(p.macros.lookup_spec("dump"@) == Some(seq![MacroType::Internal(BuiltinId::Dump)]));
            },
            }
        }
        assert forall|b: nat| p.macros.spans_ok(b) by {
            assert(g0.spans_ok(b));
            assert(g1.spans_ok(b));
            assert(g2.spans_ok(b));
            assert(g3.spans_ok(b));
            assert(g4.spans_ok(b));
            assert(g5.spans_ok(b));
            assert(g6.spans_ok(b));
            assert(g7.spans_ok(b));
            assert(g8.spans_ok(b));
            assert(g9.spans_ok(b));
            assert(g10.spans_ok(b));
            assert(g11.spans_ok(b));
            assert(g12.spans_ok(b));
            assert(g13.spans_ok(b));
            assert(g14.spans_ok(b));
            assert(g15.spans_ok(b));
            assert(g16.spans_ok(b));
            assert(g17.spans_ok(b));
            assert(g18.spans_ok(b));
            assert(g19.spans_ok(b));
            assert(g20.spans_ok(b));
            assert(g21.spans_ok(b));
            assert(g22.spans_ok(b));
            assert(g23.spans_ok(b));
            assert(g24.spans_ok(b));
            assert(g25.spans_ok(b));
            assert(g26.spans_ok(b));
            assert(g27.spans_ok(b));
            assert(g28.spans_ok(b));
            assert(g29.spans_ok(b));
            assert(g30.spans_ok(b));
            assert(g31.spans_ok(b));
            assert(g32.spans_ok(b));
            assert(g33.spans_ok(b));
            assert(g34.spans_ok(b));
            assert(g35.spans_ok(b));
            assert(g36.spans_ok(b));
            assert(g37.spans_ok(b));
        }
        assert forall|n: Seq<char>|
            (forall|id: BuiltinId| builtin_name(id) != n) implies p.macros.lookup_spec(n) is None by {
            assert(builtin_name(BuiltinId::Define) == "define"@);
            assert("define"@ != n);
            assert(builtin_name(BuiltinId::Global) == "global"@);
            assert("global"@ != n);
            assert(builtin_name(BuiltinId::Undefine) == "undefine"@);
            assert("undefine"@ != n);
            assert(builtin_name(BuiltinId::Load) == "load"@);
            assert("load"@ != n);
            assert(builtin_name(BuiltinId::Expand) == "expand"@);
            assert("expand"@ != n);
            assert(builtin_name(BuiltinId::Expr) == "expr"@);
            assert("expr"@ != n);
            assert(builtin_name(BuiltinId::Lua) == "lua"@);
            assert("lua"@ != n);
            assert(builtin_name(BuiltinId::Macrobody) == "macrobody"@);
            assert("macrobody"@ != n);
            assert(builtin_name(BuiltinId::Quote) == "quote"@);
            assert("quote"@ != n);
            assert(builtin_name(BuiltinId::Gsub) == "gsub"@);
            assert("gsub"@ != n);
            assert(builtin_name(BuiltinId::Len) == "len"@);
            assert("len"@ != n);
            assert(builtin_name(BuiltinId::Lower) == "lower"@);
            assert("lower"@ != n);
            assert(builtin_name(BuiltinId::Rep) == "rep"@);
            assert("rep"@ != n);
            assert(builtin_name(BuiltinId::Reverse) == "reverse"@);
            assert("reverse"@ != n);
            assert(builtin_name(BuiltinId::Sub) == "sub"@);
            assert("sub"@ != n);
            assert(builtin_name(BuiltinId::Upper) == "upper"@);
            assert("upper"@ != n);
            assert(builtin_name(BuiltinId::Shescape) == "shescape"@);
            assert("shescape"@ != n);
            assert(builtin_name(BuiltinId::Shrink) == "shrink"@);
            assert("shrink"@ != n);
            assert(builtin_name(BuiltinId::Basename) == "basename"@);
            assert("basename"@ != n);
            assert(builtin_name(BuiltinId::Dirname) == "dirname"@);
            assert("dirname"@ != n);
            assert(builtin_name(BuiltinId::Exists) == "exists"@);
            assert("exists"@ != n);
            assert(builtin_name(BuiltinId::Suffix) == "suffix"@);
            assert("suffix"@ != n);
            assert(builtin_name(BuiltinId::Url2path) == "url2path"@);
            assert("url2path"@ != n);
            assert(builtin_name(BuiltinId::U2p) == "u2p"@);
            assert("u2p"@ != n);
            assert(builtin_name(BuiltinId::Uncompress) == "uncompress"@);
            assert("uncompress"@ != n);
            assert(builtin_name(BuiltinId::Getncpus) == "getncpus"@);
            assert("getncpus"@ != n);
            assert(builtin_name(BuiltinId::Getconfdir) == "getconfdir"@);
            assert("getconfdir"@ != n);
            assert(builtin_name(BuiltinId::Getenv) == "getenv"@);
            assert("getenv"@ != n);
            assert(builtin_name(BuiltinId::Rpmversion) == "rpmversion"@);
            assert("rpmversion"@ != n);
            assert(builtin_name(BuiltinId::Echo) == "echo"@);
            assert("echo"@ != n);
            assert(builtin_name(BuiltinId::Warn) == "warn"@);
            assert("warn"@ != n);
            assert(builtin_name(BuiltinId::Error) == "error"@);
            assert("error"@ != n);
            assert(builtin_name(BuiltinId::Verbose) == "verbose"@);
            assert("verbose"@ != n);
            assert(builtin_name(BuiltinId::SourceNum) == "S"@);
            assert("S"@ != n);
            assert(builtin_name(BuiltinId::PatchNum) == "P"@);
            assert("P"@ != n);
            assert(builtin_name(BuiltinId::Trace) == "trace"@);
            assert("trace"@ != n);
            assert(builtin_name(BuiltinId::Dump) == "dump"@);
            assert("dump"@ != n);
            assert(g0.lookup_spec(n) is None);
            assert(g0.lookup_spec(n) is None);
            assert(g1.lookup_spec(n) is None);
            assert(g2.lookup_spec(n) is None);
            assert(g3.lookup_spec(n) is None);
            assert(g4.lookup_spec(n) is None);
            assert(g5.lookup_spec(n) is None);
            assert(g6.lookup_spec(n) is None);
            assert(g7.lookup_spec(n) is None);
            assert(g8.lookup_spec(n) is None);
            assert(g9.lookup_spec(n) is None);
            assert(g10.lookup_spec(n) is None);
            assert(g11.lookup_spec(n) is None);
            assert(g12.lookup_spec(n) is None);
            assert(g13.lookup_spec(n) is None);
            assert(g14.lookup_spec(n) is None);
            assert(g15.lookup_spec(n) is None);
            assert(g16.lookup_spec(n) is None);
            assert(g17.lookup_spec(n) is None);
            assert(g18.lookup_spec(n) is None);
            assert(g19.lookup_spec(n) is None);
            assert(g20.lookup_spec(n) is None);
            assert(g21.lookup_spec(n) is None);
            assert(g22.lookup_spec(n) is None);
            assert(g23.lookup_spec(n) is None);
            assert(g24.lookup_spec(n) is None);
            assert(g25.lookup_spec(n) is None);
            assert(g26.lookup_spec(n) is None);
            assert(g27.lookup_spec(n) is None);
            assert(g28.lookup_spec(n) is None);
            assert(g29.lookup_spec(n) is None);
            assert(g30.lookup_spec(n) is None);
            assert(g31.lookup_spec(n) is None);
            assert(g32.lookup_spec(n) is None);
            assert(g33.lookup_spec(n) is None);
            assert(g34.lookup_spec(n) is None);
            assert(g35.lookup_spec(n) is None);
            assert(g36.lookup_spec(n) is None);
            assert(g37.lookup_spec(n) is None);
        }

    }
}

} // verus!
